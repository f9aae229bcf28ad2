//! The delivery protocol's decision logic. Building and sending the MIME
//! message is delegated to an external transport; this module decides which
//! body structure an outbound message takes, from which parts it carries.

use crate::config::EmailAccount;
use crate::email::Email;
use vstd::prelude::*;

verus! {

/// The body structure of an outbound message.
#[derive(Clone, Copy, PartialEq, Eq, Structural, Debug)]
pub enum BodyStructure {
    /// Plain text and rendered markup, as alternatives.
    TextAndHtml,
    /// Plain text alone.
    TextOnly,
    /// Rendered markup alone.
    HtmlOnly,
    /// No body at all.
    Empty,
}

/// How an outbound message is to be assembled: its body structure, and
/// whether the attachments are wrapped around it.
pub struct SendPlan {
    pub structure: BodyStructure,
    pub with_attachments: bool,
}

/// The structure a message's parts call for.
pub open spec fn spec_body_structure(e: Email) -> BodyStructure {
    if e.body_text is Some && e.body_html is Some {
        BodyStructure::TextAndHtml
    } else if e.body_text is Some {
        BodyStructure::TextOnly
    } else if e.body_html is Some {
        BodyStructure::HtmlOnly
    } else {
        BodyStructure::Empty
    }
}

/// Decides how an outbound message is assembled: both bodies become
/// alternatives, one body stands alone, and attachments wrap whatever body
/// there is. The send itself must be atomic — the transport either accepts
/// the whole message or reports an error.
pub fn send_plan(email: &Email) -> (r: SendPlan)
    ensures
        r.structure == spec_body_structure(*email),
        r.with_attachments == (email.attachments@.len() > 0),
{
    let structure = if email.body_text.is_some() && email.body_html.is_some() {
        BodyStructure::TextAndHtml
    } else if email.body_text.is_some() {
        BodyStructure::TextOnly
    } else if email.body_html.is_some() {
        BodyStructure::HtmlOnly
    } else {
        BodyStructure::Empty
    };
    SendPlan { structure, with_attachments: email.attachments.len() > 0 }
}

/// A fresh outbound message for the account, stamped with the given
/// construction time (the clock is outside work): empty apart from the
/// account's identity as sender.
pub fn create_new_email(account: &EmailAccount, date: u64) -> (r: Email)
    ensures
        r@.account_id == account.id@,
        r@.from == account.email@,
        r@.from_name == Some(account.name@),
        r@.id.len() == 0,
        r@.subject.len() == 0,
        r@.to.len() == 0,
        r@.cc.len() == 0,
        r@.bcc.len() == 0,
        r@.body_text is None,
        r@.body_html is None,
        r@.date == date,
        r@.attachments.len() == 0,
        r@.is_read == false,
        r@.is_flagged == false,
        r@.headers.len() == 0,
        r@.folder == "INBOX"@,
{
    let mut email = Email::new(date);
    email.account_id = account.id.clone();
    email.from = account.email.clone();
    email.from_name = Some(account.name.clone());
    email
}

} // verus!
