//! Helpers for the rich retrieval protocol, whose wire framing is delegated
//! to an external session: which message range a fetch asks for, and how a
//! fetched message's server-side flags and identifier are applied.

use crate::email::Email;
use crate::text::{spec_dec_chars, u64_dec_string};
use vstd::prelude::*;
use vstd::string::StringExecFns;

verus! {

/// The sequence-set a fetch selects: the most recent `limit` messages when
/// the mailbox holds more than that, the whole mailbox otherwise.
pub open spec fn spec_fetch_sequence(count: u32, limit: u32) -> Seq<char> {
    if count > limit {
        spec_dec_chars((count - limit + 1) as nat) + ":"@ + spec_dec_chars(count as nat)
    } else {
        "1:*"@
    }
}

/// Builds the sequence-set for fetching the most recent `limit` of `count`
/// messages.
pub fn fetch_sequence(count: u32, limit: u32) -> (r: String)
    ensures
        r@ == spec_fetch_sequence(count, limit),
{
    if count > limit {
        let mut s = u64_dec_string(count as u64 - limit as u64 + 1);
        s.append(":");
        let e = u64_dec_string(count as u64);
        s.append(e.as_str());
        s
    } else {
        "1:*".to_owned()
    }
}

/// Applies what the server reported alongside a fetched message: its seen and
/// flagged marks, and its server-assigned identifier when one came.
pub fn apply_fetch_flags(email: &mut Email, seen: bool, flagged: bool, uid: Option<u32>)
    ensures
        final(email).is_read == seen,
        final(email).is_flagged == flagged,
        uid matches Some(u) ==> final(email).id@ == spec_dec_chars(u as nat),
        uid is None ==> final(email).id == old(email).id,
        final(email).subject == old(email).subject,
        final(email).from == old(email).from,
        final(email).from_name == old(email).from_name,
        final(email).to == old(email).to,
        final(email).cc == old(email).cc,
        final(email).bcc == old(email).bcc,
        final(email).body_text == old(email).body_text,
        final(email).body_html == old(email).body_html,
        final(email).date == old(email).date,
        final(email).attachments == old(email).attachments,
        final(email).headers == old(email).headers,
        final(email).account_id == old(email).account_id,
        final(email).folder == old(email).folder,
{
    email.is_read = seen;
    email.is_flagged = flagged;
    match uid {
        Some(u) => {
            email.id = u64_dec_string(u as u64);
        },
        None => {},
    }
}

} // verus!
