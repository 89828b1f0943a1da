//! Rendering a notification decision as the message text to deliver.
//!
//! The text is a pure function of the notification kind, the monitor's
//! identifier and the endpoint; delivering it is the caller's business.

use vstd::prelude::*;
use vstd::string::StringExecFns;

use crate::tracker::EventKind;

verus! {

/// The text announcing that an endpoint has gone down.
pub open spec fn down_text(identifier: Seq<char>, site: Seq<char>) -> Seq<char> {
    identifier + ": *"@ + site + "* is DOWN :sob:"@
}

/// The text announcing that an endpoint has recovered.
pub open spec fn up_again_text(identifier: Seq<char>, site: Seq<char>) -> Seq<char> {
    identifier + ": Yey! :tada: :tada: :tada: *"@ + site + "* is UP Again!"@
}

/// Render the message for one notification decision about `site`.
pub fn render_message(kind: EventKind, identifier: &str, site: &str) -> (text: String)
    ensures
        kind is DownAlert ==> text@ == down_text(identifier@, site@),
        kind is UpAgainAlert ==> text@ == up_again_text(identifier@, site@),
{
    match kind {
        EventKind::DownAlert => String::from_str(identifier).concat(": *").concat(site).concat(
            "* is DOWN :sob:",
        ),
        EventKind::UpAgainAlert => String::from_str(identifier).concat(
            ": Yey! :tada: :tada: :tada: *",
        ).concat(site).concat("* is UP Again!"),
    }
}

} // verus!
