//! The connection health loop's decision logic: what one tick does for one
//! account, and the loop's own stopped/running state machine.
//!
//! The loop itself — sleeping, probing sockets, redialing — is outside work.
//! Each tick the driver asks [`health_plan`] what to do for each account,
//! performs the probes and reconnects it names, and applies every result
//! through [`apply_probe_result`] and [`apply_reconnect_result`].

use crate::account::{Account, ConnectionStatus, Protocol};
use vstd::prelude::*;

verus! {

/// What one tick does for one protocol of one account.
#[derive(Clone, Copy, PartialEq, Eq, Structural, Debug)]
pub enum TickAction {
    /// The protocol reports connected: probe whether the session is alive.
    Probe,
    /// The protocol is down: attempt to reconnect.
    Reconnect,
    /// Leave the protocol alone this tick.
    Leave,
}

/// The tick's plan for one account, one action per protocol.
pub struct HealthPlan {
    pub imap: TickAction,
    pub pop3: TickAction,
    pub smtp: TickAction,
}

/// What a tick does for a retrieval protocol: probe a connected session,
/// reconnect a disconnected one, touch nothing else.
pub open spec fn spec_imap_action(a: Account) -> TickAction {
    if a.spec_configured(Protocol::Imap) {
        if a.imap_status == ConnectionStatus::Connected {
            TickAction::Probe
        } else if a.imap_status == ConnectionStatus::Disconnected {
            TickAction::Reconnect
        } else {
            TickAction::Leave
        }
    } else {
        TickAction::Leave
    }
}

/// What a tick does for the line retrieval protocol: probe a connected
/// session, reconnect a disconnected one, touch nothing else.
pub open spec fn spec_pop3_action(a: Account) -> TickAction {
    if a.spec_configured(Protocol::Pop3) {
        if a.pop3_status == ConnectionStatus::Connected {
            TickAction::Probe
        } else if a.pop3_status == ConnectionStatus::Disconnected {
            TickAction::Reconnect
        } else {
            TickAction::Leave
        }
    } else {
        TickAction::Leave
    }
}

/// What a tick does for the delivery protocol: reconnect unconditionally
/// whenever it is in any state other than connected.
pub open spec fn spec_smtp_action(a: Account) -> TickAction {
    if a.smtp_status != ConnectionStatus::Connected {
        TickAction::Reconnect
    } else {
        TickAction::Leave
    }
}

/// Decides what one tick does for one account.
pub fn health_plan(account: &Account) -> (r: HealthPlan)
    ensures
        r.imap == spec_imap_action(*account),
        r.pop3 == spec_pop3_action(*account),
        r.smtp == spec_smtp_action(*account),
{
    let imap = if account.has_imap() {
        match account.imap_status {
            ConnectionStatus::Connected => TickAction::Probe,
            ConnectionStatus::Disconnected => TickAction::Reconnect,
            _ => TickAction::Leave,
        }
    } else {
        TickAction::Leave
    };
    let pop3 = if account.has_pop3() {
        match account.pop3_status {
            ConnectionStatus::Connected => TickAction::Probe,
            ConnectionStatus::Disconnected => TickAction::Reconnect,
            _ => TickAction::Leave,
        }
    } else {
        TickAction::Leave
    };
    let smtp = if matches!(account.smtp_status, ConnectionStatus::Connected) {
        TickAction::Leave
    } else {
        TickAction::Reconnect
    };
    HealthPlan { imap, pop3, smtp }
}

/// Applies a liveness probe's answer: a dead session is demoted to
/// `Disconnected` — a passive detection, not a failed attempt, so never
/// `Failed` — and a live one changes nothing.
pub fn apply_probe_result(account: &mut Account, p: Protocol, alive: bool)
    ensures
        alive ==> *final(account) == *old(account),
        !alive ==> *final(account) == old(account).spec_disconnect(p),
        old(account).wf() ==> final(account).wf(),
{
    if !alive {
        account.disconnect(p);
    }
}

/// Applies a reconnect attempt's outcome: success promotes the protocol to
/// `Connected` and clears the error text; failure changes nothing, since the
/// protocol was already down.
pub fn apply_reconnect_result(account: &mut Account, p: Protocol, outcome: Result<(), String>)
    requires
        old(account).spec_configured(p),
    ensures
        outcome is Ok ==> *final(account) == (Account {
            last_error: None,
            ..old(account).spec_with_status(p, ConnectionStatus::Connected)
        }),
        outcome is Err ==> *final(account) == *old(account),
        old(account).wf() ==> final(account).wf(),
{
    if outcome.is_ok() {
        account.complete_connect(p, outcome);
    }
}

/// The health loop's own state: stopped or running, plus the tick interval
/// in seconds. Starting is idempotent; stopping takes effect at the next
/// wake-up of the loop's driver.
pub struct ConnectionManager {
    running: bool,
    check_interval: u64,
}

impl ConnectionManager {
    pub closed spec fn spec_running(self) -> bool {
        self.running
    }

    pub closed spec fn spec_interval(self) -> u64 {
        self.check_interval
    }

    /// A stopped loop with the given tick interval in seconds.
    pub fn new(check_interval: u64) -> (r: ConnectionManager)
        ensures
            !r.spec_running(),
            r.spec_interval() == check_interval,
    {
        ConnectionManager { running: false, check_interval }
    }

    /// Marks the loop running. Idempotent: returns whether the caller must
    /// launch the driver task, which is the case only when the loop was
    /// stopped.
    pub fn start_background_checker(&mut self) -> (r: bool)
        ensures
            final(self).spec_running(),
            final(self).spec_interval() == old(self).spec_interval(),
            r == !old(self).spec_running(),
    {
        let was_running = self.running;
        self.running = true;
        !was_running
    }

    /// Marks the loop stopped; the driver observes this on its next wake and
    /// exits.
    pub fn stop_background_checker(&mut self)
        ensures
            !final(self).spec_running(),
            final(self).spec_interval() == old(self).spec_interval(),
    {
        self.running = false;
    }

    /// Whether the loop is marked running.
    pub fn is_running(&self) -> (r: bool)
        ensures
            r == self.spec_running(),
    {
        self.running
    }

    /// Replaces the tick interval.
    pub fn set_check_interval(&mut self, interval: u64)
        ensures
            final(self).spec_interval() == interval,
            final(self).spec_running() == old(self).spec_running(),
    {
        self.check_interval = interval;
    }
}

} // verus!
