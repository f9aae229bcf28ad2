//! The in-memory account record and the per-protocol connection state
//! machine shared by all three protocol clients.
//!
//! The record owns the three connection-status fields. Opening a transport is
//! outside work, so connecting is split in two: `begin_connect` decides
//! whether the protocol may be attempted and marks it `Connecting`;
//! `complete_connect` applies the outcome the transport reported. A protocol
//! that has no configuration never leaves `Disconnected`.

use crate::config::{EmailAccount, ServerConfig};
use crate::errors::ProtocolError;
use crate::text::{spec_dec_chars, u64_dec_string};
use vstd::prelude::*;
use vstd::string::StringExecFns;

verus! {

/// Connection status of one protocol of one account.
#[derive(Clone, Copy, PartialEq, Eq, Structural, Debug)]
pub enum ConnectionStatus {
    Disconnected,
    Connecting,
    Connected,
    Failed,
}

/// The three protocols an account may speak: two retrieval protocols and the
/// delivery protocol.
#[derive(Clone, Copy, PartialEq, Eq, Structural, Debug)]
pub enum Protocol {
    Imap,
    Pop3,
    Smtp,
}

/// One configured mailbox with its runtime connection state.
#[verifier::ext_equal]
pub struct Account {
    /// The account configuration.
    pub config: EmailAccount,
    /// Connection status of the rich retrieval protocol.
    pub imap_status: ConnectionStatus,
    /// Connection status of the delivery protocol.
    pub smtp_status: ConnectionStatus,
    /// Connection status of the line retrieval protocol.
    pub pop3_status: ConnectionStatus,
    /// Text of the most recent connection error, if any.
    pub last_error: Option<String>,
    /// Number of unread messages.
    pub unread_count: usize,
    /// Total number of messages.
    pub total_count: usize,
    /// Known folder names.
    pub folders: Vec<String>,
}

impl Account {
    /// The status field of the given protocol.
    pub open spec fn spec_status(self, p: Protocol) -> ConnectionStatus {
        match p {
            Protocol::Imap => self.imap_status,
            Protocol::Pop3 => self.pop3_status,
            Protocol::Smtp => self.smtp_status,
        }
    }

    /// Whether the given protocol is configured. The delivery protocol
    /// always is.
    pub open spec fn spec_configured(self, p: Protocol) -> bool {
        match p {
            Protocol::Imap => self.config.imap is Some,
            Protocol::Pop3 => self.config.pop3 is Some,
            Protocol::Smtp => true,
        }
    }

    /// The record with one status field replaced.
    pub open spec fn spec_with_status(self, p: Protocol, st: ConnectionStatus) -> Account {
        match p {
            Protocol::Imap => Account { imap_status: st, ..self },
            Protocol::Pop3 => Account { pop3_status: st, ..self },
            Protocol::Smtp => Account { smtp_status: st, ..self },
        }
    }

    /// The state a disconnect leaves the record in.
    pub open spec fn spec_disconnect(self, p: Protocol) -> Account {
        self.spec_with_status(p, ConnectionStatus::Disconnected)
    }

    /// The record invariant: a protocol with no configuration never
    /// transitions away from `Disconnected`.
    pub open spec fn wf(self) -> bool {
        &&& (self.config.imap is None ==> self.imap_status == ConnectionStatus::Disconnected)
        &&& (self.config.pop3 is None ==> self.pop3_status == ConnectionStatus::Disconnected)
    }

    /// The record after one attempt's outcome is applied: success marks the
    /// protocol connected and clears the error text, failure marks it failed
    /// and records the text.
    pub open spec fn spec_apply_outcome(self, p: Protocol, o: Result<(), String>) -> Account {
        match o {
            Ok(u) => Account {
                last_error: None,
                ..self.spec_with_status(p, ConnectionStatus::Connected)
            },
            Err(e) => Account {
                last_error: Some(e),
                ..self.spec_with_status(p, ConnectionStatus::Failed)
            },
        }
    }

    /// Everything other than the status of `p` and the error text is the same
    /// in `pre` and `post`.
    pub open spec fn same_but_status_error(pre: Account, post: Account, p: Protocol) -> bool {
        &&& post.config == pre.config
        &&& post.unread_count == pre.unread_count
        &&& post.total_count == pre.total_count
        &&& post.folders == pre.folders
        &&& forall|q: Protocol| q != p ==> post.spec_status(q) == pre.spec_status(q)
    }

    /// What a fresh record for a configuration looks like: every protocol
    /// disconnected, no error, empty counts, the single implicit folder.
    pub open spec fn spec_fresh(self, config: EmailAccount) -> bool {
        &&& self.config == config
        &&& self.imap_status == ConnectionStatus::Disconnected
        &&& self.smtp_status == ConnectionStatus::Disconnected
        &&& self.pop3_status == ConnectionStatus::Disconnected
        &&& self.last_error is None
        &&& self.unread_count == 0
        &&& self.total_count == 0
        &&& self.folders@.len() == 1 && self.folders@[0]@ == "INBOX"@
    }

    /// A fresh record for the given configuration: every protocol
    /// disconnected, no error, empty counts, the single implicit folder.
    pub fn new(config: EmailAccount) -> (r: Account)
        ensures
            r.spec_fresh(config),
            r.config == config,
            r.imap_status == ConnectionStatus::Disconnected,
            r.smtp_status == ConnectionStatus::Disconnected,
            r.pop3_status == ConnectionStatus::Disconnected,
            r.last_error is None,
            r.unread_count == 0,
            r.total_count == 0,
            r.folders@.len() == 1 && r.folders@[0]@ == "INBOX"@,
            r.wf(),
    {
        let mut folders: Vec<String> = Vec::new();
        folders.push("INBOX".to_owned());
        Account {
            config,
            imap_status: ConnectionStatus::Disconnected,
            smtp_status: ConnectionStatus::Disconnected,
            pop3_status: ConnectionStatus::Disconnected,
            last_error: None,
            unread_count: 0,
            total_count: 0,
            folders,
        }
    }

    /// The display form of the account: `name <address>`.
    pub fn get_display_name(&self) -> (r: String)
        ensures
            r@ == self.config.name@ + " <"@ + self.config.email@ + ">"@,
    {
        let mut s = self.config.name.clone();
        s.append(" <");
        s.append(self.config.email.as_str());
        s.append(">");
        s
    }

    /// One line naming the status of all three protocols.
    pub fn get_status_summary(&self) -> (r: String)
        ensures
            r@ == spec_status_summary(self.imap_status, self.smtp_status, self.pop3_status),
    {
        status_summary_string(self.imap_status, self.smtp_status, self.pop3_status)
    }

    /// The unread count as a phrase: `N unread`, or a fixed phrase when
    /// nothing is unread.
    pub fn get_unread_summary(&self) -> (r: String)
        ensures
            self.unread_count > 0 ==> r@ == spec_dec_chars(self.unread_count as nat)
                + " unread"@,
            self.unread_count == 0 ==> r@ == "No unread messages"@,
    {
        if self.unread_count > 0 {
            let mut s = u64_dec_string(self.unread_count as u64);
            s.append(" unread");
            s
        } else {
            "No unread messages".to_owned()
        }
    }

    /// Whether the rich retrieval protocol is configured.
    pub fn has_imap(&self) -> (r: bool)
        ensures
            r == (self.config.imap is Some),
    {
        self.config.imap.is_some()
    }

    /// Whether the line retrieval protocol is configured.
    pub fn has_pop3(&self) -> (r: bool)
        ensures
            r == (self.config.pop3 is Some),
    {
        self.config.pop3.is_some()
    }

    /// The rich retrieval protocol settings, if configured.
    pub fn get_imap_config(&self) -> (r: Option<&ServerConfig>)
        ensures
            r is Some <==> self.config.imap is Some,
            r matches Some(c) ==> *c == self.config.imap->Some_0,
    {
        self.config.imap.as_ref()
    }

    /// The line retrieval protocol settings, if configured.
    pub fn get_pop3_config(&self) -> (r: Option<&ServerConfig>)
        ensures
            r is Some <==> self.config.pop3 is Some,
            r matches Some(c) ==> *c == self.config.pop3->Some_0,
    {
        self.config.pop3.as_ref()
    }

    /// The delivery protocol settings.
    pub fn get_smtp_config(&self) -> (r: &ServerConfig)
        ensures
            *r == self.config.smtp,
    {
        &self.config.smtp
    }

    /// The current status of the given protocol: a pure read of the last
    /// known status, not a liveness probe.
    pub fn status_of(&self, p: Protocol) -> (r: ConnectionStatus)
        ensures
            r == self.spec_status(p),
    {
        match p {
            Protocol::Imap => self.imap_status,
            Protocol::Pop3 => self.pop3_status,
            Protocol::Smtp => self.smtp_status,
        }
    }

    /// Starts a connection attempt: rejected with `ConfigMissing` when the
    /// protocol has no configuration (the record is untouched), otherwise the
    /// protocol is marked `Connecting`.
    pub fn begin_connect(&mut self, p: Protocol) -> (r: Result<(), ProtocolError>)
        ensures
            old(self).spec_configured(p) ==> r is Ok && *final(self) == old(self).spec_with_status(
                p,
                ConnectionStatus::Connecting,
            ),
            !old(self).spec_configured(p) ==> (r matches Err(ProtocolError::ConfigMissing)
                && *final(self) == *old(self)),
            old(self).wf() ==> final(self).wf(),
    {
        let configured = match p {
            Protocol::Imap => self.config.imap.is_some(),
            Protocol::Pop3 => self.config.pop3.is_some(),
            Protocol::Smtp => true,
        };
        if !configured {
            return Err(ProtocolError::ConfigMissing);
        }
        self.set_status(p, ConnectionStatus::Connecting);
        Ok(())
    }

    /// Applies the outcome of a connection attempt: success marks the
    /// protocol `Connected` and clears the error text; failure marks it
    /// `Failed` and records the error text.
    pub fn complete_connect(&mut self, p: Protocol, outcome: Result<(), String>)
        requires
            old(self).spec_configured(p),
        ensures
            *final(self) == old(self).spec_apply_outcome(p, outcome),
            Account::same_but_status_error(*old(self), *final(self), p),
            outcome is Ok ==> final(self).spec_status(p) == ConnectionStatus::Connected && final(self).last_error is None,
            outcome matches Err(e) ==> (final(self).spec_status(p) == ConnectionStatus::Failed
                && final(self).last_error == Some(e)),
            old(self).wf() ==> final(self).wf(),
    {
        match outcome {
            Ok(()) => {
                self.set_status(p, ConnectionStatus::Connected);
                self.last_error = None;
            },
            Err(e) => {
                self.set_status(p, ConnectionStatus::Failed);
                self.last_error = Some(e);
            },
        }
    }

    /// Disconnects the given protocol: always results in `Disconnected`,
    /// whatever the prior state, and never fails.
    pub fn disconnect(&mut self, p: Protocol)
        ensures
            *final(self) == old(self).spec_disconnect(p),
            final(self).spec_status(p) == ConnectionStatus::Disconnected,
            old(self).wf() ==> final(self).wf(),
    {
        self.set_status(p, ConnectionStatus::Disconnected);
    }

    /// Records the message counts a retrieval session reported. The line
    /// protocol keeps no read state on the server, so every message counts as
    /// unread there.
    pub fn apply_stat(&mut self, total: usize, unread: usize)
        ensures
            final(self).total_count == total,
            final(self).unread_count == unread,
            final(self).config == old(self).config,
            final(self).imap_status == old(self).imap_status,
            final(self).smtp_status == old(self).smtp_status,
            final(self).pop3_status == old(self).pop3_status,
            final(self).last_error == old(self).last_error,
            final(self).folders == old(self).folders,
            old(self).wf() ==> final(self).wf(),
    {
        self.total_count = total;
        self.unread_count = unread;
    }

    /// Replaces the known folder names.
    pub fn set_folders(&mut self, folders: Vec<String>)
        ensures
            final(self).folders == folders,
            final(self).config == old(self).config,
            final(self).imap_status == old(self).imap_status,
            final(self).smtp_status == old(self).smtp_status,
            final(self).pop3_status == old(self).pop3_status,
            final(self).last_error == old(self).last_error,
            final(self).unread_count == old(self).unread_count,
            final(self).total_count == old(self).total_count,
            old(self).wf() ==> final(self).wf(),
    {
        self.folders = folders;
    }

    fn set_status(&mut self, p: Protocol, st: ConnectionStatus)
        ensures
            *final(self) == old(self).spec_with_status(p, st),
    {
        match p {
            Protocol::Imap => self.imap_status = st,
            Protocol::Pop3 => self.pop3_status = st,
            Protocol::Smtp => self.smtp_status = st,
        }
    }
}

/// Disconnecting twice in a row is the same as disconnecting once: the second
/// call finds `Disconnected` and leaves it there, with nothing else changed.
pub proof fn lemma_disconnect_idempotent(a: Account, p: Protocol)
    ensures
        a.spec_disconnect(p).spec_disconnect(p) == a.spec_disconnect(p),
        a.spec_disconnect(p).spec_status(p) == ConnectionStatus::Disconnected,
{
}

/// The one-character mark for a status.
pub open spec fn status_symbol(s: ConnectionStatus) -> Seq<char> {
    match s {
        ConnectionStatus::Connected => "✓"@,
        ConnectionStatus::Connecting => "⟳"@,
        ConnectionStatus::Failed => "✗"@,
        ConnectionStatus::Disconnected => "-"@,
    }
}

/// One line naming the status of all three protocols.
pub open spec fn spec_status_summary(
    imap: ConnectionStatus,
    smtp: ConnectionStatus,
    pop3: ConnectionStatus,
) -> Seq<char> {
    "IMAP: "@ + status_symbol(imap) + " | SMTP: "@ + status_symbol(smtp) + " | POP3: "@
        + status_symbol(pop3)
}

/// The one-character mark for a status.
fn status_symbol_str(s: ConnectionStatus) -> (r: &'static str)
    ensures
        r@ == status_symbol(s),
{
    match s {
        ConnectionStatus::Connected => "✓",
        ConnectionStatus::Connecting => "⟳",
        ConnectionStatus::Failed => "✗",
        ConnectionStatus::Disconnected => "-",
    }
}

fn status_summary_string(
    imap: ConnectionStatus,
    smtp: ConnectionStatus,
    pop3: ConnectionStatus,
) -> (r: String)
    ensures
        r@ == spec_status_summary(imap, smtp, pop3),
{
    let mut s = "IMAP: ".to_owned();
    s.append(status_symbol_str(imap));
    s.append(" | SMTP: ");
    s.append(status_symbol_str(smtp));
    s.append(" | POP3: ");
    s.append(status_symbol_str(pop3));
    s
}

/// A lightweight copy of an account's identity, statuses and counts, for
/// rendering without touching the record itself.
pub struct AccountSummary {
    pub id: String,
    pub name: String,
    pub email: String,
    pub imap_status: ConnectionStatus,
    pub smtp_status: ConnectionStatus,
    pub pop3_status: ConnectionStatus,
    pub unread_count: usize,
    pub total_count: usize,
}

impl AccountSummary {
    /// The summary of the given account record.
    pub fn of_account(account: &Account) -> (r: AccountSummary)
        ensures
            r.id@ == account.config.id@,
            r.name@ == account.config.name@,
            r.email@ == account.config.email@,
            r.imap_status == account.imap_status,
            r.smtp_status == account.smtp_status,
            r.pop3_status == account.pop3_status,
            r.unread_count == account.unread_count,
            r.total_count == account.total_count,
    {
        AccountSummary {
            id: account.config.id.clone(),
            name: account.config.name.clone(),
            email: account.config.email.clone(),
            imap_status: account.imap_status,
            smtp_status: account.smtp_status,
            pop3_status: account.pop3_status,
            unread_count: account.unread_count,
            total_count: account.total_count,
        }
    }

    /// The display form of the account: `name <address>`.
    pub fn get_display_name(&self) -> (r: String)
        ensures
            r@ == self.name@ + " <"@ + self.email@ + ">"@,
    {
        let mut s = self.name.clone();
        s.append(" <");
        s.append(self.email.as_str());
        s.append(">");
        s
    }

    /// One line naming the status of all three protocols.
    pub fn get_status_summary(&self) -> (r: String)
        ensures
            r@ == spec_status_summary(self.imap_status, self.smtp_status, self.pop3_status),
    {
        status_summary_string(self.imap_status, self.smtp_status, self.pop3_status)
    }

    /// The unread count as a phrase: `N unread`, or a fixed phrase when
    /// nothing is unread.
    pub fn get_unread_summary(&self) -> (r: String)
        ensures
            self.unread_count > 0 ==> r@ == spec_dec_chars(self.unread_count as nat)
                + " unread"@,
            self.unread_count == 0 ==> r@ == "No unread messages"@,
    {
        if self.unread_count > 0 {
            let mut s = u64_dec_string(self.unread_count as u64);
            s.append(" unread");
            s
        } else {
            "No unread messages".to_owned()
        }
    }
}

} // verus!
