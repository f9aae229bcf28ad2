//! Account and application configuration records, and the in-memory side of
//! the configuration manager.
//!
//! Loading and persisting the configuration file is the persistence
//! collaborator's work: callers hand a loaded configuration in through
//! [`ConfigManager::with_config`] and write the current one back out after a
//! mutating call returns.

use crate::errors::ConfigError;
use vstd::prelude::*;

verus! {

/// Connection settings for one mail server.
pub struct ServerConfig {
    pub host: String,
    pub port: u16,
    pub username: String,
    pub password: String,
    /// Whether the transport is encrypted.
    pub use_ssl: bool,
}

impl ServerConfig {
    /// A field-for-field copy.
    pub fn duplicate(&self) -> (r: ServerConfig)
        ensures
            r == *self,
    {
        ServerConfig {
            host: self.host.clone(),
            port: self.port,
            username: self.username.clone(),
            password: self.password.clone(),
            use_ssl: self.use_ssl,
        }
    }
}

/// Configuration of one mailbox: identity plus up to three protocol settings.
/// The delivery protocol is mandatory; the two retrieval protocols are
/// optional and independent.
pub struct EmailAccount {
    pub id: String,
    pub name: String,
    pub email: String,
    pub imap: Option<ServerConfig>,
    pub pop3: Option<ServerConfig>,
    pub smtp: ServerConfig,
}

impl EmailAccount {
    /// A field-for-field copy.
    pub fn duplicate(&self) -> (r: EmailAccount)
        ensures
            r == *self,
    {
        EmailAccount {
            id: self.id.clone(),
            name: self.name.clone(),
            email: self.email.clone(),
            imap: match &self.imap {
                Some(c) => Some(c.duplicate()),
                None => None,
            },
            pop3: match &self.pop3 {
                Some(c) => Some(c.duplicate()),
                None => None,
            },
            smtp: self.smtp.duplicate(),
        }
    }
}

/// General application settings.
pub struct AppSettings {
    /// The account selected by default, by id.
    pub default_account: Option<String>,
    /// Whether to check for new messages automatically.
    pub auto_check: bool,
    /// Interval in minutes between automatic checks.
    pub check_interval: u32,
}

/// The whole application configuration: the account list and the settings.
pub struct AppConfig {
    pub accounts: Vec<EmailAccount>,
    pub settings: AppSettings,
}

/// Holds the current configuration and the path it is persisted at, and
/// answers account CRUD on the in-memory copy.
pub struct ConfigManager {
    config: AppConfig,
    config_path: String,
}

impl ConfigManager {
    /// A manager over the default configuration, as when no stored
    /// configuration exists yet at `config_path`.
    pub fn new(config_path: &str) -> (r: ConfigManager)
        ensures
            r.spec_config().accounts@.len() == 0,
            r.spec_config().settings.default_account is None,
            r.spec_config().settings.auto_check == true,
            r.spec_config().settings.check_interval == 15,
            r.spec_path()@ == config_path@,
    {
        ConfigManager { config: Self::default_config(), config_path: config_path.to_owned() }
    }

    /// A manager over a configuration the persistence collaborator loaded.
    pub fn with_config(config_path: &str, config: AppConfig) -> (r: ConfigManager)
        ensures
            r.spec_config() == config,
            r.spec_path()@ == config_path@,
    {
        ConfigManager { config, config_path: config_path.to_owned() }
    }

    /// The configuration a fresh installation starts from.
    pub fn default_config() -> (r: AppConfig)
        ensures
            r.accounts@.len() == 0,
            r.settings.default_account is None,
            r.settings.auto_check == true,
            r.settings.check_interval == 15,
    {
        AppConfig {
            accounts: Vec::new(),
            settings: AppSettings { default_account: None, auto_check: true, check_interval: 15 },
        }
    }

    /// The current configuration.
    pub closed spec fn spec_config(&self) -> AppConfig {
        self.config
    }

    /// The path the configuration is persisted at.
    pub closed spec fn spec_path(&self) -> String {
        self.config_path
    }

    /// The path the configuration is persisted at.
    pub fn get_path(&self) -> (r: &String)
        ensures
            r == self.spec_path(),
    {
        &self.config_path
    }

    pub fn get_config(&self) -> (r: &AppConfig)
        ensures
            r == self.spec_config(),
    {
        &self.config
    }

    /// Replaces the settings, keeping the account list.
    pub fn set_settings(&mut self, settings: AppSettings)
        ensures
            final(self).spec_config().settings == settings,
            final(self).spec_config().accounts == old(self).spec_config().accounts,
            final(self).spec_path() == old(self).spec_path(),
    {
        self.config.settings = settings;
    }

    /// Replaces the account at `index`. Rejected when `index` is out of range;
    /// the caller persists the configuration after an accepting call.
    pub fn replace_account(&mut self, index: usize, account: EmailAccount) -> (r: Result<
        (),
        ConfigError,
    >)
        ensures
            r is Ok <==> index < old(self).spec_config().accounts@.len(),
            r is Ok ==> final(self).spec_config().accounts@ == old(self).spec_config().accounts@.update(index as int, account) && final(self).spec_config().settings == old(self).spec_config().settings,
            r is Err ==> *final(self) == *old(self),
            final(self).spec_path() == old(self).spec_path(),
    {
        if index >= self.config.accounts.len() {
            return Err(ConfigError::UnknownId);
        }
        self.config.accounts.set(index, account);
        Ok(())
    }

    /// Removes the account at `index`, keeping the others in order. Rejected
    /// when `index` is out of range; the caller persists the configuration
    /// after an accepting call.
    pub fn remove_account_at(&mut self, index: usize) -> (r: Result<EmailAccount, ConfigError>)
        ensures
            r is Ok <==> index < old(self).spec_config().accounts@.len(),
            r matches Ok(a) ==> a == old(self).spec_config().accounts@[index as int] && final(self).spec_config().accounts@ == old(self).spec_config().accounts@.remove(index as int)
                && final(self).spec_config().settings == old(self).spec_config().settings,
            r is Err ==> *final(self) == *old(self),
            final(self).spec_path() == old(self).spec_path(),
    {
        if index >= self.config.accounts.len() {
            return Err(ConfigError::UnknownId);
        }
        Ok(self.config.accounts.remove(index))
    }

    /// Clears the default account if it is the given id.
    pub fn clear_default_if(&mut self, account_id: &str)
        ensures
            final(self).spec_config().settings.default_account == (
            match old(self).spec_config().settings.default_account {
                Some(d) => if d@ == account_id@ {
                    None::<String>
                } else {
                    Some(d)
                },
                None => None::<String>,
            }),
            final(self).spec_config().accounts == old(self).spec_config().accounts,
            final(self).spec_config().settings.auto_check == old(self).spec_config().settings.auto_check,
            final(self).spec_config().settings.check_interval == old(self).spec_config().settings.check_interval,
            final(self).spec_path() == old(self).spec_path(),
    {
        let clear = match &self.config.settings.default_account {
            Some(d) => strings_equal(d.as_str(), account_id),
            None => false,
        };
        if clear {
            self.config.settings.default_account = None;
        }
    }

    /// Whether an account with the given id exists.
    pub open spec fn spec_has_account_id(config: AppConfig, id: Seq<char>) -> bool {
        exists|i: int|
            0 <= i < config.accounts@.len() && #[trigger] config.accounts@[i].id@ == id
    }

    /// Adds a new account. Rejected when an account with the same id already
    /// exists; the caller persists the configuration after an accepting call.
    pub fn add_account(&mut self, account: EmailAccount) -> (r: Result<(), ConfigError>)
        ensures
            r is Ok <==> !Self::spec_has_account_id(old(self).spec_config(), account.id@),
            r is Ok ==> final(self).spec_config().accounts@ == old(self).spec_config().accounts@.push(account) && final(self).spec_config().settings == old(self).spec_config().settings,
            r is Err ==> *final(self) == *old(self),
            final(self).spec_path() == old(self).spec_path(),
    {
        let n = self.config.accounts.len();
        let mut i: usize = 0;
        while i < n
            invariant
                i <= n,
                n == self.config.accounts@.len(),
                forall|j: int| 0 <= j < i ==> #[trigger] self.config.accounts@[j].id@
                    != account.id@,
            decreases n - i,
        {
            if self.config.accounts[i].id == account.id {
                return Err(ConfigError::DuplicateId);
            }
            i = i + 1;
        }
        self.config.accounts.push(account);
        Ok(())
    }

    /// Removes the account with the given id, keeping the others in order.
    /// If the removed account was the default, the default is cleared.
    /// Rejected when no account has that id; the caller persists the
    /// configuration after an accepting call.
    pub fn remove_account(&mut self, account_id: &str) -> (r: Result<(), ConfigError>)
        ensures
            r is Ok <==> Self::spec_has_account_id(old(self).spec_config(), account_id@),
            r is Ok ==> final(self).spec_config().accounts@ == old(self).spec_config().accounts@.filter(|a: EmailAccount| a.id@ != account_id@),
            r is Ok ==> final(self).spec_config().settings.default_account == (
            match old(self).spec_config().settings.default_account {
                Some(d) => if d@ == account_id@ {
                    None
                } else {
                    Some(d)
                },
                None => None,
            }),
            r is Ok ==> final(self).spec_config().settings.auto_check == old(self).spec_config().settings.auto_check && final(self).spec_config().settings.check_interval
                == old(self).spec_config().settings.check_interval,
            r is Err ==> *final(self) == *old(self),
            final(self).spec_path() == old(self).spec_path(),
    {
        let n = self.config.accounts.len();
        let mut kept: Vec<EmailAccount> = Vec::new();
        let mut found = false;
        let mut i: usize = 0;
        proof {
            reveal_with_fuel(Seq::filter, 2);
            assert(self.config.accounts@.take(0).filter(|a: EmailAccount| a.id@ != account_id@)
                =~= Seq::<EmailAccount>::empty());
        }
        while i < n
            invariant
                i <= n,
                n == self.config.accounts@.len(),
                kept@ == self.config.accounts@.take(i as int).filter(
                    |a: EmailAccount| a.id@ != account_id@,
                ),
                found <==> exists|j: int|
                    0 <= j < i && #[trigger] self.config.accounts@[j].id@ == account_id@,
            decreases n - i,
        {
            let ghost pre = self.config.accounts@.take(i as int);
            let ghost cur = self.config.accounts@.take(i as int + 1);
            let a = self.config.accounts[i].duplicate();
            proof {
                reveal_with_fuel(Seq::filter, 2);
                assert(cur.drop_last() =~= pre);
                assert(cur.last() == self.config.accounts@[i as int]);
            }
            if strings_equal(a.id.as_str(), account_id) {
                found = true;
                proof {
                    reveal_with_fuel(Seq::filter, 2);
                    assert(!(|x: EmailAccount| x.id@ != account_id@)(cur.last()));
                    assert(cur.filter(|x: EmailAccount| x.id@ != account_id@) == cur.drop_last().filter(|x: EmailAccount| x.id@ != account_id@));
                    assert(kept@ =~= cur.filter(|x: EmailAccount| x.id@ != account_id@));
                }
            } else {
                kept.push(a);
                proof {
                    reveal_with_fuel(Seq::filter, 2);
                    assert((|x: EmailAccount| x.id@ != account_id@)(cur.last()));
                    assert(cur.filter(|x: EmailAccount| x.id@ != account_id@) == cur.drop_last().filter(|x: EmailAccount| x.id@ != account_id@) + seq![cur.last()]);
                    assert(kept@ =~= cur.filter(|x: EmailAccount| x.id@ != account_id@));
                }
            }
            i = i + 1;
        }
        proof {
            assert(self.config.accounts@.take(n as int) =~= self.config.accounts@);
        }
        if !found {
            return Err(ConfigError::UnknownId);
        }
        self.config.accounts = kept;
        let clear_default = match &self.config.settings.default_account {
            Some(d) => strings_equal(d.as_str(), account_id),
            None => false,
        };
        if clear_default {
            self.config.settings.default_account = None;
        }
        Ok(())
    }
}

/// Character-for-character string comparison.
pub fn strings_equal(a: &str, b: &str) -> (r: bool)
    ensures
        r == (a@ == b@),
{
    let na = a.unicode_len();
    let nb = b.unicode_len();
    if na != nb {
        return false;
    }
    let mut i: usize = 0;
    while i < na
        invariant
            i <= na,
            na == a@.len(),
            na == b@.len(),
            forall|j: int| 0 <= j < i ==> a@[j] == b@[j],
        decreases na - i,
    {
        if a.get_char(i) != b.get_char(i) {
            return false;
        }
        i = i + 1;
    }
    proof {
        assert(a@ =~= b@);
    }
    true
}

} // verus!
