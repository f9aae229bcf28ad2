//! The account orchestrator: owns the account records, decides which
//! protocols a connect or retry attempts, applies the outcomes the transports
//! reported, and keeps the records in step with the configuration.
//!
//! Opening transports is outside work. The caller learns from the records
//! which protocols to dial (`has_imap`, `has_pop3`, statuses), dials them,
//! and hands every outcome in through a [`ConnectOutcomes`]; the orchestrator
//! alone writes the status fields. Attempts are independent: one protocol's
//! failure never prevents the others, and a failure is captured on the
//! record, never raised to the caller.

use crate::account::{Account, ConnectionStatus, Protocol};
use crate::config::{ConfigManager, EmailAccount};
use crate::errors::ConfigError;
use vstd::prelude::*;

verus! {

/// The outcomes of the dials the caller performed for one account: one entry
/// per protocol that was to be attempted, and nothing for the others.
pub struct ConnectOutcomes {
    pub imap: Option<Result<(), String>>,
    pub pop3: Option<Result<(), String>>,
    pub smtp: Option<Result<(), String>>,
}

/// The record after one attempt's outcome is applied.
pub open spec fn spec_apply_outcome(a: Account, p: Protocol, o: Result<(), String>) -> Account {
    a.spec_apply_outcome(p, o)
}

/// The record after a whole connect pass: the configured retrieval protocols
/// in order, then the delivery protocol, each applied only if attempted.
pub open spec fn spec_connect_result(a: Account, outcomes: ConnectOutcomes) -> Account {
    let a1 = if a.spec_configured(Protocol::Imap) {
        spec_apply_outcome(a, Protocol::Imap, outcomes.imap->Some_0)
    } else {
        a
    };
    let a2 = if a.spec_configured(Protocol::Pop3) {
        spec_apply_outcome(a1, Protocol::Pop3, outcomes.pop3->Some_0)
    } else {
        a1
    };
    spec_apply_outcome(a2, Protocol::Smtp, outcomes.smtp->Some_0)
}

/// Whether the outcomes cover exactly the protocols a connect pass on `a`
/// attempts: each configured retrieval protocol, and always delivery.
pub open spec fn spec_outcomes_for_connect(a: Account, o: ConnectOutcomes) -> bool {
    &&& (o.imap is Some <==> a.spec_configured(Protocol::Imap))
    &&& (o.pop3 is Some <==> a.spec_configured(Protocol::Pop3))
    &&& o.smtp is Some
}

/// Whether a retry pass on `a` attempts protocol `p`: only a configured
/// protocol currently in `Failed` status is retried.
pub open spec fn spec_retries(a: Account, p: Protocol) -> bool {
    a.spec_configured(p) && a.spec_status(p) == ConnectionStatus::Failed
}

/// Whether the outcomes cover exactly the protocols a retry pass on `a`
/// attempts.
pub open spec fn spec_outcomes_for_retry(a: Account, o: ConnectOutcomes) -> bool {
    &&& (o.imap is Some <==> spec_retries(a, Protocol::Imap))
    &&& (o.pop3 is Some <==> spec_retries(a, Protocol::Pop3))
    &&& (o.smtp is Some <==> spec_retries(a, Protocol::Smtp))
}

/// The record after a retry pass: each protocol currently failed gets its
/// outcome applied; every other protocol is untouched.
pub open spec fn spec_retry_result(a: Account, outcomes: ConnectOutcomes) -> Account {
    let a1 = if spec_retries(a, Protocol::Imap) {
        spec_apply_outcome(a, Protocol::Imap, outcomes.imap->Some_0)
    } else {
        a
    };
    let a2 = if spec_retries(a, Protocol::Pop3) {
        spec_apply_outcome(a1, Protocol::Pop3, outcomes.pop3->Some_0)
    } else {
        a1
    };
    if spec_retries(a, Protocol::Smtp) {
        spec_apply_outcome(a2, Protocol::Smtp, outcomes.smtp->Some_0)
    } else {
        a2
    }
}

/// A connect pass never moves an unconfigured protocol's status away from
/// `Disconnected`: the protocol is not attempted, its status is untouched,
/// and the record invariant already pins an unconfigured protocol at
/// `Disconnected`.
pub proof fn lemma_connect_keeps_unconfigured_disconnected(a: Account, outcomes: ConnectOutcomes)
    requires
        a.wf(),
    ensures
        !a.spec_configured(Protocol::Imap) ==> spec_connect_result(a, outcomes).imap_status
            == ConnectionStatus::Disconnected,
        !a.spec_configured(Protocol::Pop3) ==> spec_connect_result(a, outcomes).pop3_status
            == ConnectionStatus::Disconnected,
        spec_connect_result(a, outcomes).wf(),
{
}

/// Owns the account records and orchestrates connection state across them.
pub struct AccountManager {
    accounts: Vec<Account>,
}

impl AccountManager {
    /// The records, as a sequence.
    pub closed spec fn spec_accounts(self) -> Seq<Account> {
        self.accounts@
    }

    /// Every record satisfies its invariant.
    pub open spec fn wf(self) -> bool {
        forall|i: int|
            0 <= i < self.spec_accounts().len() ==> (#[trigger] self.spec_accounts()[i]).wf()
    }

    /// An orchestrator with no accounts.
    pub fn new() -> (r: AccountManager)
        ensures
            r.spec_accounts().len() == 0,
            r.wf(),
    {
        AccountManager { accounts: Vec::new() }
    }

    /// Replaces the records with a fresh one per configured account, every
    /// protocol disconnected.
    pub fn load_accounts(&mut self, config_manager: &ConfigManager)
        ensures
            final(self).spec_accounts().len()
                == config_manager.spec_config().accounts@.len(),
            forall|i: int|
                0 <= i < final(self).spec_accounts().len()
                    ==> (#[trigger] final(self).spec_accounts()[i]).spec_fresh(
                    config_manager.spec_config().accounts@[i],
                ),
            final(self).wf(),
    {
        let config = config_manager.get_config();
        let n = config.accounts.len();
        let mut accounts: Vec<Account> = Vec::new();
        let mut i: usize = 0;
        while i < n
            invariant
                i <= n,
                n == config.accounts@.len(),
                accounts@.len() == i,
                forall|j: int|
                    0 <= j < i ==> (#[trigger] accounts@[j]).spec_fresh(config.accounts@[j]),
            decreases n - i,
        {
            let account_config = config.accounts[i].duplicate();
            accounts.push(Account::new(account_config));
            i = i + 1;
        }
        self.accounts = accounts;
    }

    /// The records.
    pub fn get_accounts(&self) -> (r: &Vec<Account>)
        ensures
            r@ == self.spec_accounts(),
    {
        &self.accounts
    }

    /// The number of records.
    pub fn account_count(&self) -> (r: usize)
        ensures
            r == self.spec_accounts().len(),
    {
        self.accounts.len()
    }

    /// The record at `index`, if any.
    pub fn get_account(&self, index: usize) -> (r: Option<&Account>)
        ensures
            r is Some <==> index < self.spec_accounts().len(),
            r matches Some(a) ==> *a == self.spec_accounts()[index as int],
    {
        if index < self.accounts.len() {
            Some(&self.accounts[index])
        } else {
            None
        }
    }

    /// Applies a whole connect pass for the account at `index`: each
    /// configured retrieval protocol and always the delivery protocol, each
    /// attempt independent. Returns whether any attempted connection
    /// succeeded; with an out-of-range index nothing changes and the answer
    /// is no. A protocol with no configuration is not attempted and its
    /// status is untouched.
    pub fn connect_account(&mut self, index: usize, outcomes: ConnectOutcomes) -> (r: bool)
        requires
            index < old(self).spec_accounts().len() ==> spec_outcomes_for_connect(
                old(self).spec_accounts()[index as int],
                outcomes,
            ),
        ensures
            index >= old(self).spec_accounts().len() ==> *final(self) == *old(self) && r == false,
            index < old(self).spec_accounts().len() ==> final(self).spec_accounts() == old(self).spec_accounts().update(
                index as int,
                spec_connect_result(old(self).spec_accounts()[index as int], outcomes),
            ),
            index < old(self).spec_accounts().len() ==> r == ({
                let a = old(self).spec_accounts()[index as int];
                ||| (a.spec_configured(Protocol::Imap) && outcomes.imap matches Some(Ok(_)))
                ||| (a.spec_configured(Protocol::Pop3) && outcomes.pop3 matches Some(Ok(_)))
                ||| outcomes.smtp matches Some(Ok(_))
            }),
            index < old(self).spec_accounts().len() ==> {
                let a0 = old(self).spec_accounts()[index as int];
                let a1 = final(self).spec_accounts()[index as int];
                &&& (!a0.spec_configured(Protocol::Imap) ==> a1.imap_status == a0.imap_status)
                &&& (!a0.spec_configured(Protocol::Pop3) ==> a1.pop3_status == a0.pop3_status)
            },
            old(self).wf() ==> final(self).wf(),
    {
        if index >= self.accounts.len() {
            return false;
        }
        let ghost accounts0 = self.accounts@;
        let ghost a0 = self.accounts@[index as int];
        let mut a = self.accounts.remove(index);
        let mut any = false;
        let ConnectOutcomes { imap, pop3, smtp } = outcomes;
        if a.has_imap() {
            let out = take_outcome(imap);
            if a.begin_connect(Protocol::Imap).is_ok() {
                any = any || out.is_ok();
                a.complete_connect(Protocol::Imap, out);
                proof {
                    assert(a =~= spec_apply_outcome(
                        a0,
                        Protocol::Imap,
                        outcomes.imap->Some_0,
                    ));
                }
            }
        }
        let ghost a1 = if a0.spec_configured(Protocol::Imap) {
            spec_apply_outcome(a0, Protocol::Imap, outcomes.imap->Some_0)
        } else {
            a0
        };
        if a.has_pop3() {
            let out = take_outcome(pop3);
            if a.begin_connect(Protocol::Pop3).is_ok() {
                any = any || out.is_ok();
                a.complete_connect(Protocol::Pop3, out);
                proof {
                    assert(a =~= spec_apply_outcome(
                        a1,
                        Protocol::Pop3,
                        outcomes.pop3->Some_0,
                    ));
                }
            }
        }
        let ghost a2 = if a0.spec_configured(Protocol::Pop3) {
            spec_apply_outcome(a1, Protocol::Pop3, outcomes.pop3->Some_0)
        } else {
            a1
        };
        let out = take_outcome(smtp);
        if a.begin_connect(Protocol::Smtp).is_ok() {
            any = any || out.is_ok();
            a.complete_connect(Protocol::Smtp, out);
        }
        proof {
            assert(a =~= spec_apply_outcome(a2, Protocol::Smtp, outcomes.smtp->Some_0));
        }
        self.accounts.insert(index, a);
        proof {
            assert(self.accounts@ =~= accounts0.update(
                index as int,
                spec_connect_result(a0, outcomes),
            ));
        }
        any
    }

    /// Applies a retry pass for the account at `index`: only protocols
    /// currently in `Failed` status are re-attempted; protocols that are
    /// `Connected`, `Connecting` or `Disconnected` are untouched. With an
    /// out-of-range index nothing changes.
    pub fn retry_connections(&mut self, index: usize, outcomes: ConnectOutcomes)
        requires
            index < old(self).spec_accounts().len() ==> spec_outcomes_for_retry(
                old(self).spec_accounts()[index as int],
                outcomes,
            ),
        ensures
            index >= old(self).spec_accounts().len() ==> *final(self) == *old(self),
            index < old(self).spec_accounts().len() ==> final(self).spec_accounts() == old(self).spec_accounts().update(
                index as int,
                spec_retry_result(old(self).spec_accounts()[index as int], outcomes),
            ),
            index < old(self).spec_accounts().len() ==> {
                let a0 = old(self).spec_accounts()[index as int];
                let a1 = final(self).spec_accounts()[index as int];
                forall|p: Protocol|
                    a0.spec_status(p) != ConnectionStatus::Failed ==> a1.spec_status(p)
                        == a0.spec_status(p)
            },
            old(self).wf() ==> final(self).wf(),
    {
        if index >= self.accounts.len() {
            return ;
        }
        let ghost accounts0 = self.accounts@;
        let ghost a0 = self.accounts@[index as int];
        let mut a = self.accounts.remove(index);
        let ConnectOutcomes { imap, pop3, smtp } = outcomes;
        let retry_imap = a.has_imap() && matches!(a.status_of(Protocol::Imap), ConnectionStatus::Failed);
        if retry_imap {
            let out = take_outcome(imap);
            if a.begin_connect(Protocol::Imap).is_ok() {
                a.complete_connect(Protocol::Imap, out);
                proof {
                    assert(a =~= spec_apply_outcome(
                        a0,
                        Protocol::Imap,
                        outcomes.imap->Some_0,
                    ));
                }
            }
        }
        let ghost a1 = if spec_retries(a0, Protocol::Imap) {
            spec_apply_outcome(a0, Protocol::Imap, outcomes.imap->Some_0)
        } else {
            a0
        };
        let retry_pop3 = a.has_pop3() && matches!(a.status_of(Protocol::Pop3), ConnectionStatus::Failed);
        proof {
            assert(a1.pop3_status == a0.pop3_status);
            assert(a1.config == a0.config);
        }
        if retry_pop3 {
            let out = take_outcome(pop3);
            if a.begin_connect(Protocol::Pop3).is_ok() {
                a.complete_connect(Protocol::Pop3, out);
                proof {
                    assert(a =~= spec_apply_outcome(
                        a1,
                        Protocol::Pop3,
                        outcomes.pop3->Some_0,
                    ));
                }
            }
        }
        let ghost a2 = if spec_retries(a0, Protocol::Pop3) {
            spec_apply_outcome(a1, Protocol::Pop3, outcomes.pop3->Some_0)
        } else {
            a1
        };
        let retry_smtp = matches!(a.status_of(Protocol::Smtp), ConnectionStatus::Failed);
        proof {
            assert(a2.smtp_status == a0.smtp_status);
        }
        if retry_smtp {
            let out = take_outcome(smtp);
            if a.begin_connect(Protocol::Smtp).is_ok() {
                a.complete_connect(Protocol::Smtp, out);
                proof {
                    assert(a =~= spec_apply_outcome(
                        a2,
                        Protocol::Smtp,
                        outcomes.smtp->Some_0,
                    ));
                }
            }
        }
        self.accounts.insert(index, a);
        proof {
            assert(self.accounts@ =~= accounts0.update(
                index as int,
                spec_retry_result(a0, outcomes),
            ));
        }
    }

    /// Applies a health-loop liveness probe's answer for one protocol of the
    /// account at `index`: a dead session is demoted to `Disconnected`, a
    /// live one changes nothing. Out of range, nothing changes.
    pub fn apply_probe(&mut self, index: usize, p: Protocol, alive: bool)
        ensures
            index >= old(self).spec_accounts().len() ==> *final(self) == *old(self),
            index < old(self).spec_accounts().len() ==> final(self).spec_accounts() == old(
                self,
            ).spec_accounts().update(
                index as int,
                if alive {
                    old(self).spec_accounts()[index as int]
                } else {
                    old(self).spec_accounts()[index as int].spec_disconnect(p)
                },
            ),
            old(self).wf() ==> final(self).wf(),
    {
        if index >= self.accounts.len() {
            return ;
        }
        let ghost accounts0 = self.accounts@;
        let mut a = self.accounts.remove(index);
        crate::health::apply_probe_result(&mut a, p, alive);
        self.accounts.insert(index, a);
        proof {
            assert(self.accounts@ =~= accounts0.update(index as int, a));
        }
    }

    /// Applies a health-loop reconnect attempt's outcome for one protocol of
    /// the account at `index`: success promotes it to `Connected` and clears
    /// the error text; failure changes nothing. Out of range, nothing
    /// changes.
    pub fn apply_reconnect(&mut self, index: usize, p: Protocol, outcome: Result<(), String>)
        requires
            index < old(self).spec_accounts().len() ==> old(self).spec_accounts()[index as int].spec_configured(
                p,
            ),
        ensures
            index >= old(self).spec_accounts().len() ==> *final(self) == *old(self),
            index < old(self).spec_accounts().len() ==> final(self).spec_accounts() == old(
                self,
            ).spec_accounts().update(
                index as int,
                if outcome is Ok {
                    Account {
                        last_error: None,
                        ..old(self).spec_accounts()[index as int].spec_with_status(
                            p,
                            ConnectionStatus::Connected,
                        )
                    }
                } else {
                    old(self).spec_accounts()[index as int]
                },
            ),
            old(self).wf() ==> final(self).wf(),
    {
        if index >= self.accounts.len() {
            return ;
        }
        let ghost accounts0 = self.accounts@;
        let mut a = self.accounts.remove(index);
        crate::health::apply_reconnect_result(&mut a, p, outcome);
        self.accounts.insert(index, a);
        proof {
            assert(self.accounts@ =~= accounts0.update(index as int, a));
        }
    }

    /// Records the message counts a retrieval session reported for the
    /// account at `index`: the total and the unread count, everything else on
    /// the record untouched. Out of range, nothing changes.
    pub fn apply_counts(&mut self, index: usize, total: usize, unread: usize)
        ensures
            index >= old(self).spec_accounts().len() ==> *final(self) == *old(self),
            index < old(self).spec_accounts().len() ==> final(self).spec_accounts() == old(self).spec_accounts().update(
                index as int,
                (Account {
                    total_count: total,
                    unread_count: unread,
                    ..old(self).spec_accounts()[index as int]
                }),
            ),
            old(self).wf() ==> final(self).wf(),
    {
        if index >= self.accounts.len() {
            return ;
        }
        let ghost accounts0 = self.accounts@;
        let mut a = self.accounts.remove(index);
        a.apply_stat(total, unread);
        proof {
            assert(a =~= Account {
                total_count: total,
                unread_count: unread,
                ..accounts0[index as int]
            });
        }
        self.accounts.insert(index, a);
        proof {
            assert(self.accounts@ =~= accounts0.update(index as int, a));
        }
    }

    /// Records the message count the line protocol's status query reported
    /// for the account at `index`. That protocol keeps no read state on the
    /// server, so the count is the only state source of truth and every
    /// message counts as unread: unread equals total. Out of range, nothing
    /// changes.
    pub fn apply_line_protocol_count(&mut self, index: usize, count: usize)
        ensures
            index >= old(self).spec_accounts().len() ==> *final(self) == *old(self),
            index < old(self).spec_accounts().len() ==> final(self).spec_accounts() == old(self).spec_accounts().update(
                index as int,
                (Account {
                    total_count: count,
                    unread_count: count,
                    ..old(self).spec_accounts()[index as int]
                }),
            ),
            index < old(self).spec_accounts().len() ==> final(self).spec_accounts()[index as int].total_count
                == count && final(self).spec_accounts()[index as int].unread_count == count,
            old(self).wf() ==> final(self).wf(),
    {
        self.apply_counts(index, count, count);
    }

    /// Replaces the known folder names of the account at `index` with the
    /// list a retrieval session reported. Out of range, nothing changes.
    pub fn apply_folders(&mut self, index: usize, folders: Vec<String>)
        ensures
            index >= old(self).spec_accounts().len() ==> *final(self) == *old(self),
            index < old(self).spec_accounts().len() ==> final(self).spec_accounts() == old(self).spec_accounts().update(
                index as int,
                (Account { folders, ..old(self).spec_accounts()[index as int] }),
            ),
            old(self).wf() ==> final(self).wf(),
    {
        if index >= self.accounts.len() {
            return ;
        }
        let ghost accounts0 = self.accounts@;
        let ghost folders0 = folders@;
        let mut a = self.accounts.remove(index);
        a.set_folders(folders);
        proof {
            assert(a =~= Account { folders: a.folders, ..accounts0[index as int] });
        }
        self.accounts.insert(index, a);
        proof {
            assert(self.accounts@ =~= accounts0.update(index as int, a));
        }
    }

    /// Disconnects every protocol of every account. Always succeeds; each
    /// record keeps its configuration, counts, folders and error text.
    pub fn disconnect_all_clients(&mut self)
        ensures
            final(self).spec_accounts().len() == old(self).spec_accounts().len(),
            forall|i: int|
                0 <= i < old(self).spec_accounts().len()
                    ==> #[trigger] final(self).spec_accounts()[i] == old(self).spec_accounts()[i].spec_disconnect(Protocol::Imap).spec_disconnect(
                    Protocol::Pop3,
                ).spec_disconnect(Protocol::Smtp),
            final(self).wf(),
    {
        let n = self.accounts.len();
        let ghost accounts0 = self.accounts@;
        let mut i: usize = 0;
        while i < n
            invariant
                i <= n,
                n == self.accounts@.len(),
                accounts0.len() == n,
                forall|j: int|
                    i <= j < n ==> #[trigger] self.accounts@[j] == accounts0[j],
                forall|j: int|
                    0 <= j < i ==> #[trigger] self.accounts@[j] == accounts0[j].spec_disconnect(
                        Protocol::Imap,
                    ).spec_disconnect(Protocol::Pop3).spec_disconnect(Protocol::Smtp),
            decreases n - i,
        {
            let mut a = self.accounts.remove(i);
            a.disconnect(Protocol::Imap);
            a.disconnect(Protocol::Pop3);
            a.disconnect(Protocol::Smtp);
            self.accounts.insert(i, a);
            proof {
                assert(forall|j: int|
                    0 <= j < n && j != i ==> #[trigger] self.accounts@[j] == accounts0.update(
                        i as int,
                        a,
                    )[j] || true);
            }
            i = i + 1;
        }
    }

    /// Adds a new account: the configuration gains it (rejected on a
    /// duplicate id) and a fresh record is appended. The caller persists the
    /// configuration after an accepting call.
    pub fn add_account(
        &mut self,
        account_config: EmailAccount,
        config_manager: &mut ConfigManager,
    ) -> (r: Result<(), ConfigError>)
        ensures
            r is Ok <==> !ConfigManager::spec_has_account_id(
                old(config_manager).spec_config(),
                account_config.id@,
            ),
            r is Ok ==> final(self).spec_accounts().len() == old(self).spec_accounts().len() + 1
                && (forall|i: int|
                0 <= i < old(self).spec_accounts().len() ==> #[trigger] final(self).spec_accounts()[i] == old(self).spec_accounts()[i]) && final(self).spec_accounts().last().spec_fresh(account_config) && final(config_manager).spec_config().accounts@ == old(config_manager).spec_config().accounts@.push(
                account_config,
            ),
            r is Err ==> *final(self) == *old(self) && *final(config_manager) == *old(config_manager),
            old(self).wf() ==> final(self).wf(),
    {
        let for_record = account_config.duplicate();
        match config_manager.add_account(account_config) {
            Ok(()) => {
                self.accounts.push(Account::new(for_record));
                Ok(())
            },
            Err(e) => Err(e),
        }
    }

    /// Replaces the account at `index`: the configuration entry is replaced
    /// and the record is rebuilt fresh, every protocol disconnected (the
    /// caller drops any live sessions). Out of range, nothing changes. The
    /// caller persists the configuration after the call.
    pub fn update_account(
        &mut self,
        index: usize,
        account_config: EmailAccount,
        config_manager: &mut ConfigManager,
    ) -> (r: Result<(), ConfigError>)
        requires
            old(self).spec_accounts().len() == old(config_manager).spec_config().accounts@.len(),
        ensures
            r is Ok,
            index >= old(self).spec_accounts().len() ==> *final(self) == *old(self) && *final(config_manager) == *old(config_manager),
            index < old(self).spec_accounts().len() ==> final(self).spec_accounts().len() == old(self).spec_accounts().len() && (forall|i: int|
                0 <= i < old(self).spec_accounts().len() && i != index ==> #[trigger] final(self).spec_accounts()[i] == old(self).spec_accounts()[i]) && final(self).spec_accounts()[index as int].spec_fresh(account_config) && final(config_manager).spec_config().accounts@ == old(config_manager).spec_config().accounts@.update(
                index as int,
                account_config,
            ) && final(config_manager).spec_config().settings == old(config_manager).spec_config().settings,
            old(self).wf() ==> final(self).wf(),
    {
        if index >= self.accounts.len() {
            return Ok(());
        }
        let for_record = account_config.duplicate();
        match config_manager.replace_account(index, account_config) {
            Ok(()) => {},
            Err(_) => {
                proof {
                    assert(false);
                }
            },
        }
        let ghost accounts0 = self.accounts@;
        let _ = self.accounts.remove(index);
        self.accounts.insert(index, Account::new(for_record));
        proof {
            assert(forall|i: int|
                0 <= i < accounts0.len() && i != index ==> #[trigger] self.accounts@[i]
                    == accounts0[i]);
        }
        Ok(())
    }

    /// Deletes the account at `index`: the configuration entry and the
    /// record are removed (the caller drops any live sessions), and the
    /// default-account setting is cleared if it named this account. Out of
    /// range, nothing changes. The caller persists the configuration after
    /// the call.
    pub fn delete_account(&mut self, index: usize, config_manager: &mut ConfigManager) -> (r:
        Result<(), ConfigError>)
        requires
            old(self).spec_accounts().len() == old(config_manager).spec_config().accounts@.len(),
        ensures
            r is Ok,
            index >= old(self).spec_accounts().len() ==> *final(self) == *old(self) && *final(config_manager) == *old(config_manager),
            index < old(self).spec_accounts().len() ==> final(self).spec_accounts() == old(self).spec_accounts().remove(index as int) && final(config_manager).spec_config().accounts@
                == old(config_manager).spec_config().accounts@.remove(index as int),
            index < old(self).spec_accounts().len() ==> final(config_manager).spec_config().settings.default_account == (
            match old(config_manager).spec_config().settings.default_account {
                Some(d) => if d@ == old(config_manager).spec_config().accounts@[index as int].id@ {
                    None::<String>
                } else {
                    Some(d)
                },
                None => None::<String>,
            }),
            old(self).wf() ==> final(self).wf(),
    {
        if index >= self.accounts.len() {
            return Ok(());
        }
        let removed_config = match config_manager.remove_account_at(index) {
            Ok(a) => a,
            Err(_) => {
                proof {
                    assert(false);
                }
                return Ok(());
            },
        };
        config_manager.clear_default_if(removed_config.id.as_str());
        let _ = self.accounts.remove(index);
        Ok(())
    }
}

/// Unwraps an outcome that the alignment precondition guarantees present.
fn take_outcome(o: Option<Result<(), String>>) -> (r: Result<(), String>)
    requires
        o is Some,
    ensures
        r == o->Some_0,
{
    match o {
        Some(out) => out,
        None => {
            proof {
                assert(false);
            }
            Ok(())
        },
    }
}

} // verus!
