//! The user-facing text of the core: mentions, confirmations, the
//! new-request notification the mentors' channel receives, the moderation
//! reports, and the listing entry for a pending request. Every function
//! states its output exactly; where a line carries a timestamp rendered by
//! the clock library, the rendering is taken as an argument and the one
//! composing function says so.

use vstd::prelude::*;

use crate::clock::{spec_utc_time_text, utc_time_text};
use crate::directory::{spec_dir_get, Directory};
use crate::labels::spec_table_label;
use crate::records::HelpRequest;
use crate::text::{contains_str, i64_to_string, spec_contains, spec_digits, spec_render_i64,
    u64_to_string};

verus! {

/// The platform's inline mention of a participant.
pub open spec fn spec_mention(participant: u64) -> Seq<char> {
    "<@"@ + spec_digits(participant as nat) + ">"@
}

/// The platform's inline mention of a role.
pub open spec fn spec_role_mention(role_id: u64) -> Seq<char> {
    "<@&"@ + spec_digits(role_id as nat) + ">"@
}

pub fn mention(participant: u64) -> (r: String)
    ensures
        r@ == spec_mention(participant),
{
    let mut out = String::from_str("<@");
    let digits = u64_to_string(participant);
    out.append(digits.as_str());
    out.append(">");
    proof {
        reveal_strlit("<@");
        reveal_strlit(">");
        assert(out@ =~= spec_mention(participant));
    }
    out
}

pub fn role_mention(role_id: u64) -> (r: String)
    ensures
        r@ == spec_role_mention(role_id),
{
    let mut out = String::from_str("<@&");
    let digits = u64_to_string(role_id);
    out.append(digits.as_str());
    out.append(">");
    proof {
        reveal_strlit("<@&");
        reveal_strlit(">");
        assert(out@ =~= spec_role_mention(role_id));
    }
    out
}

/// The confirmation a participant receives after joining a table.
pub open spec fn spec_join_confirmation(participant: u64, number: u64) -> Seq<char> {
    "Successfully added "@ + spec_mention(participant) + " to `"@ + spec_table_label(
        number as nat,
    ) + "`."@
}

pub fn join_confirmation(participant: u64, number: u64) -> (r: String)
    ensures
        r@ == spec_join_confirmation(participant, number),
{
    let mut out = String::from_str("Successfully added ");
    let m = mention(participant);
    out.append(m.as_str());
    out.append(" to `");
    let label = crate::labels::table_label(number);
    out.append(label.as_str());
    out.append("`.");
    proof {
        reveal_strlit("Successfully added ");
        reveal_strlit(" to `");
        reveal_strlit("`.");
        assert(out@ =~= spec_join_confirmation(participant, number));
    }
    out
}

/// The confirmation a participant receives after leaving a table.
pub open spec fn spec_leave_confirmation(participant: u64, number: u64) -> Seq<char> {
    "Successfully removed "@ + spec_mention(participant) + " from `"@ + spec_table_label(
        number as nat,
    ) + "`."@
}

pub fn leave_confirmation(participant: u64, number: u64) -> (r: String)
    ensures
        r@ == spec_leave_confirmation(participant, number),
{
    let mut out = String::from_str("Successfully removed ");
    let m = mention(participant);
    out.append(m.as_str());
    out.append(" from `");
    let label = crate::labels::table_label(number);
    out.append(label.as_str());
    out.append("`.");
    proof {
        reveal_strlit("Successfully removed ");
        reveal_strlit(" from `");
        reveal_strlit("`.");
        assert(out@ =~= spec_leave_confirmation(participant, number));
    }
    out
}

/// The refusal a caller receives when a helper-only command is asked for
/// without the mentor role.
pub open spec fn spec_not_mentor_message(participant: u64) -> Seq<char> {
    spec_mention(participant) + " You must be a mentor to run this command!"@
}

pub fn not_mentor_message(participant: u64) -> (r: String)
    ensures
        r@ == spec_not_mentor_message(participant),
{
    let mut out = mention(participant);
    out.append(" You must be a mentor to run this command!");
    proof {
        reveal_strlit(" You must be a mentor to run this command!");
        assert(out@ =~= spec_not_mentor_message(participant));
    }
    out
}

/// The attribution a new help request carries: the requester's recorded group
/// label, or their mention where no group is recorded.
pub fn request_attribution(directory: &Directory, participant: u64) -> (r: String)
    requires
        directory.wf(),
    ensures
        match spec_dir_get(directory.contents(), participant) {
            Some(label) => r@ == label,
            None => r@ == spec_mention(participant),
        },
{
    match directory.get_group(participant) {
        Some(label) => label.clone(),
        None => mention(participant),
    }
}

/// The confirmation a participant receives after filing a help request.
pub open spec fn spec_request_confirmation(participant: u64) -> Seq<char> {
    "Successfully requested help for "@ + spec_mention(participant) + "."@
}

pub fn request_confirmation(participant: u64) -> (r: String)
    ensures
        r@ == spec_request_confirmation(participant),
{
    let mut out = String::from_str("Successfully requested help for ");
    let m = mention(participant);
    out.append(m.as_str());
    out.append(".");
    proof {
        reveal_strlit("Successfully requested help for ");
        reveal_strlit(".");
        assert(out@ =~= spec_request_confirmation(participant));
    }
    out
}

/// The notification the mentors' channel receives for a new request: the
/// requester, and their table if the attribution names one.
pub open spec fn spec_request_notification(participant: u64, attribution: Seq<char>) -> Seq<char> {
    if spec_contains(attribution, "Table "@) {
        "New help request from "@ + spec_mention(participant) + " in "@ + attribution
    } else {
        "New help request from "@ + spec_mention(participant)
    }
}

pub fn request_notification(participant: u64, attribution: &str) -> (r: String)
    ensures
        r@ == spec_request_notification(participant, attribution@),
{
    let mut out = String::from_str("New help request from ");
    let m = mention(participant);
    out.append(m.as_str());
    if contains_str(attribution, "Table ") {
        out.append(" in ");
        out.append(attribution);
        proof {
            reveal_strlit("New help request from ");
            reveal_strlit(" in ");
            assert(out@ =~= spec_request_notification(participant, attribution@));
        }
    } else {
        proof {
            reveal_strlit("New help request from ");
            assert(out@ =~= spec_request_notification(participant, attribution@));
        }
    }
    out
}

/// The confirmation a helper receives after completing a request.
pub open spec fn spec_completion_confirmation(id: Seq<char>, participant: u64) -> Seq<char> {
    "Deleted help request "@ + id + " for "@ + spec_mention(participant) + "."@
}

pub fn completion_confirmation(id: &str, participant: u64) -> (r: String)
    ensures
        r@ == spec_completion_confirmation(id@, participant),
{
    let mut out = String::from_str("Deleted help request ");
    out.append(id);
    out.append(" for ");
    let m = mention(participant);
    out.append(m.as_str());
    out.append(".");
    proof {
        reveal_strlit("Deleted help request ");
        reveal_strlit(" for ");
        reveal_strlit(".");
        assert(out@ =~= spec_completion_confirmation(id@, participant));
    }
    out
}

/// The line the reports channel receives for an ordinary report.
pub open spec fn spec_report_message(
    reporter: u64,
    text: Seq<char>,
    channel: Seq<char>,
) -> Seq<char> {
    spec_mention(reporter) + " reported message '"@ + text + "' from channel #"@ + channel
}

pub fn report_message(reporter: u64, text: &str, channel: &str) -> (r: String)
    ensures
        r@ == spec_report_message(reporter, text@, channel@),
{
    let mut out = mention(reporter);
    out.append(" reported message '");
    out.append(text);
    out.append("' from channel #");
    out.append(channel);
    proof {
        reveal_strlit(" reported message '");
        reveal_strlit("' from channel #");
        assert(out@ =~= spec_report_message(reporter, text@, channel@));
    }
    out
}

/// The line the reports channel receives for an emergency: it pings the
/// manager and mentor roles.
pub open spec fn spec_emergency_message(
    manager_role_id: u64,
    mentor_role_id: u64,
    reporter: u64,
    channel: Seq<char>,
    text: Seq<char>,
) -> Seq<char> {
    "("@ + spec_role_mention(manager_role_id) + " "@ + spec_role_mention(mentor_role_id) + ") "@
        + "**EMERGENCY!!** "@ + spec_mention(reporter) + " reported an emergency from #"@ + channel
        + " with message '"@ + text + "'"@
}

pub fn emergency_message(
    manager_role_id: u64,
    mentor_role_id: u64,
    reporter: u64,
    channel: &str,
    text: &str,
) -> (r: String)
    ensures
        r@ == spec_emergency_message(manager_role_id, mentor_role_id, reporter, channel@, text@),
{
    let mut out = String::from_str("(");
    let manager = role_mention(manager_role_id);
    out.append(manager.as_str());
    out.append(" ");
    let mentor = role_mention(mentor_role_id);
    out.append(mentor.as_str());
    out.append(") ");
    out.append("**EMERGENCY!!** ");
    let m = mention(reporter);
    out.append(m.as_str());
    out.append(" reported an emergency from #");
    out.append(channel);
    out.append(" with message '");
    out.append(text);
    out.append("'");
    proof {
        reveal_strlit("(");
        reveal_strlit(" ");
        reveal_strlit(") ");
        reveal_strlit("**EMERGENCY!!** ");
        reveal_strlit(" reported an emergency from #");
        reveal_strlit(" with message '");
        reveal_strlit("'");
        assert(out@ =~= spec_emergency_message(
            manager_role_id,
            mentor_role_id,
            reporter,
            channel@,
            text@,
        ));
    }
    out
}

/// The line that opens a listing of pending requests.
pub fn listing_header() -> (r: String)
    ensures
        r@ == "Here is a list of all the uncompleted help requests:"@,
{
    String::from_str("Here is a list of all the uncompleted help requests:")
}

/// The body of one listing entry, given the display text of its timestamp.
pub open spec fn spec_request_entry(
    time_text: Seq<char>,
    description: Seq<char>,
    link: Seq<char>,
    attribution: Seq<char>,
) -> Seq<char> {
    "**Timestamp**: "@ + time_text + "\n**Description**: "@ + description + "\n**Link**: "@ + link
        + "\n**For**: "@ + attribution
}

/// Formats one listing entry around a timestamp rendering chosen by the
/// caller.
pub fn format_request_entry(request: &HelpRequest, time_text: &str) -> (r: String)
    ensures
        r@ == spec_request_entry(
            time_text@,
            request.description@,
            request.link@,
            request.attribution@,
        ),
{
    let mut out = String::from_str("**Timestamp**: ");
    out.append(time_text);
    out.append("\n**Description**: ");
    out.append(request.description.as_str());
    out.append("\n**Link**: ");
    out.append(request.link.as_str());
    out.append("\n**For**: ");
    out.append(request.attribution.as_str());
    proof {
        reveal_strlit("**Timestamp**: ");
        reveal_strlit("\n**Description**: ");
        reveal_strlit("\n**Link**: ");
        reveal_strlit("\n**For**: ");
        assert(out@ =~= spec_request_entry(
            time_text@,
            request.description@,
            request.link@,
            request.attribution@,
        ));
    }
    out
}

/// Formats one listing entry, rendering the request's timestamp through the
/// clock library when its seconds are in range, and as plain seconds
/// otherwise.
pub fn request_entry_text(request: &HelpRequest) -> (r: String)
    ensures
        r@ == spec_request_entry(
            spec_utc_time_text(request.timestamp as int / 1000),
            request.description@,
            request.link@,
            request.attribution@,
        ) || r@ == spec_request_entry(
            spec_render_i64(request.timestamp as int / 1000),
            request.description@,
            request.link@,
            request.attribution@,
        ),
{
    let millis = request.timestamp;
    let secs: i64 = if millis >= 0 {
        millis / 1000
    } else {
        -((-(millis + 1)) / 1000 + 1)
    };
    proof {
        assert(secs == millis as int / 1000) by (nonlinear_arith)
            requires
                millis < 0 ==> secs == -((-(millis as int + 1)) / 1000 + 1),
                millis >= 0 ==> secs == millis as int / 1000,
        ;
    }
    match utc_time_text(secs) {
        Some(t) => format_request_entry(request, t.as_str()),
        None => {
            let t = i64_to_string(secs);
            format_request_entry(request, t.as_str())
        },
    }
}

} // verus!
