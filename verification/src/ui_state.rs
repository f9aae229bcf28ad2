//! Presentation-side state that is pure logic: which view is on screen, and
//! the account-configuration form — field selection, editing, validation and
//! the account record it builds.
//!
//! The form addresses its fields by index, in a fixed order: identity fields
//! first, then the two optional retrieval-protocol blocks, the delivery
//! block, and the two buttons. Disabled protocol blocks are skipped when
//! moving the selection.

use crate::config::{EmailAccount, ServerConfig};
use crate::text::{is_dec_char, parse_dec_u16, spec_dec_chars, spec_dec_value_chars, u64_dec_string};
use vstd::prelude::*;
use vstd::string::{StrSliceExecFns, StringExecFns};

verus! {

/// The screens the application can show.
#[derive(Clone, Copy, PartialEq, Eq, Structural, Debug)]
pub enum AppView {
    /// The account list.
    Accounts,
    /// The folder list of the selected account.
    Folders,
    /// The message list of the selected folder.
    Emails,
    /// One message.
    EmailDetail,
    /// The outbound message editor.
    ComposeEmail,
    /// The settings screen.
    Settings,
    /// The account-configuration form.
    AccountConfig,
}

/// The mathematical view of one server configuration.
#[verifier::ext_equal]
pub ghost struct ServerConfigView {
    pub host: Seq<char>,
    pub port: u16,
    pub username: Seq<char>,
    pub password: Seq<char>,
    pub use_ssl: bool,
}

impl View for ServerConfig {
    type V = ServerConfigView;

    open spec fn view(&self) -> ServerConfigView {
        ServerConfigView {
            host: self.host@,
            port: self.port,
            username: self.username@,
            password: self.password@,
            use_ssl: self.use_ssl,
        }
    }
}

/// The mathematical view of one account configuration.
#[verifier::ext_equal]
pub ghost struct EmailAccountView {
    pub id: Seq<char>,
    pub name: Seq<char>,
    pub email: Seq<char>,
    pub imap: Option<ServerConfigView>,
    pub pop3: Option<ServerConfigView>,
    pub smtp: ServerConfigView,
}

impl View for EmailAccount {
    type V = EmailAccountView;

    open spec fn view(&self) -> EmailAccountView {
        EmailAccountView {
            id: self.id@,
            name: self.name@,
            email: self.email@,
            imap: match self.imap {
                Some(c) => Some(c@),
                None => None,
            },
            pop3: match self.pop3 {
                Some(c) => Some(c@),
                None => None,
            },
            smtp: self.smtp@,
        }
    }
}

/// The state of the account-configuration form.
pub struct AccountFormState {
    /// The account being configured.
    pub account: EmailAccount,
    /// Index of the selected field.
    pub selected_field: usize,
    /// Whether the selected field is being edited.
    pub editing: bool,
    /// The text being typed into the selected field.
    pub edit_buffer: String,
    /// Validation findings: field index and message, in check order.
    pub validation_errors: Vec<(usize, String)>,
    /// Whether the form adds a new account rather than editing one.
    pub is_new_account: bool,
    /// Whether the rich retrieval protocol block is enabled.
    pub imap_enabled: bool,
    /// Whether the line retrieval protocol block is enabled.
    pub pop3_enabled: bool,
}

/// The mathematical view of the form.
#[verifier::ext_equal]
pub ghost struct FormView {
    pub account: EmailAccountView,
    pub selected_field: usize,
    pub editing: bool,
    pub edit_buffer: Seq<char>,
    pub validation_errors: Seq<(usize, Seq<char>)>,
    pub is_new_account: bool,
    pub imap_enabled: bool,
    pub pop3_enabled: bool,
}

impl View for AccountFormState {
    type V = FormView;

    open spec fn view(&self) -> FormView {
        FormView {
            account: self.account@,
            selected_field: self.selected_field,
            editing: self.editing,
            edit_buffer: self.edit_buffer@,
            validation_errors: Seq::new(
                self.validation_errors@.len(),
                |i: int| (self.validation_errors@[i].0, self.validation_errors@[i].1@),
            ),
            is_new_account: self.is_new_account,
            imap_enabled: self.imap_enabled,
            pop3_enabled: self.pop3_enabled,
        }
    }
}

/// The index of the last form field (the cancel button).
pub open spec fn last_field() -> usize {
    21
}

/// The name of the field at `f`.
pub open spec fn spec_field_name(f: usize) -> Seq<char> {
    match f {
        0usize => "account_id"@,
        1usize => "account_name"@,
        2usize => "email"@,
        3usize => "imap_enabled"@,
        4usize => "imap_host"@,
        5usize => "imap_port"@,
        6usize => "imap_username"@,
        7usize => "imap_password"@,
        8usize => "imap_ssl"@,
        9usize => "pop3_enabled"@,
        10usize => "pop3_host"@,
        11usize => "pop3_port"@,
        12usize => "pop3_username"@,
        13usize => "pop3_password"@,
        14usize => "pop3_ssl"@,
        15usize => "smtp_host"@,
        16usize => "smtp_port"@,
        17usize => "smtp_username"@,
        18usize => "smtp_password"@,
        19usize => "smtp_ssl"@,
        20usize => "save_button"@,
        21usize => "cancel_button"@,
        _ => "unknown"@,
    }
}

/// `Yes` or `No`.
pub open spec fn spec_yes_no(b: bool) -> Seq<char> {
    if b {
        "Yes"@
    } else {
        "No"@
    }
}

/// The displayed value of the selected field.
pub open spec fn spec_selected_value(v: FormView) -> Seq<char> {
    match v.selected_field {
        0usize => v.account.id,
        1usize => v.account.name,
        2usize => v.account.email,
        3usize => spec_yes_no(v.imap_enabled),
        4usize => match v.account.imap {
            Some(c) => c.host,
            None => Seq::empty(),
        },
        5usize => match v.account.imap {
            Some(c) => spec_dec_chars(c.port as nat),
            None => "993"@,
        },
        6usize => match v.account.imap {
            Some(c) => c.username,
            None => Seq::empty(),
        },
        7usize => match v.account.imap {
            Some(c) => c.password,
            None => Seq::empty(),
        },
        8usize => match v.account.imap {
            Some(c) => spec_yes_no(c.use_ssl),
            None => "Yes"@,
        },
        9usize => spec_yes_no(v.pop3_enabled),
        10usize => match v.account.pop3 {
            Some(c) => c.host,
            None => Seq::empty(),
        },
        11usize => match v.account.pop3 {
            Some(c) => spec_dec_chars(c.port as nat),
            None => "995"@,
        },
        12usize => match v.account.pop3 {
            Some(c) => c.username,
            None => Seq::empty(),
        },
        13usize => match v.account.pop3 {
            Some(c) => c.password,
            None => Seq::empty(),
        },
        14usize => match v.account.pop3 {
            Some(c) => spec_yes_no(c.use_ssl),
            None => "Yes"@,
        },
        15usize => v.account.smtp.host,
        16usize => spec_dec_chars(v.account.smtp.port as nat),
        17usize => v.account.smtp.username,
        18usize => v.account.smtp.password,
        19usize => spec_yes_no(v.account.smtp.use_ssl),
        20usize => "Save"@,
        21usize => "Cancel"@,
        _ => Seq::empty(),
    }
}

/// A value is affirmative when it reads `yes` or `true` in any letter case,
/// or is `1`.
pub open spec fn lower_code(c: char) -> u32 {
    if 65 <= c as u32 <= 90 {
        (c as u32 + 32) as u32
    } else {
        c as u32
    }
}

pub open spec fn spec_truthy(s: Seq<char>) -> bool {
    ||| (s.len() == 3 && lower_code(s[0]) == 121 && lower_code(s[1]) == 101 && lower_code(s[2])
        == 115)
    ||| (s.len() == 1 && s[0] == '1')
    ||| (s.len() == 4 && lower_code(s[0]) == 116 && lower_code(s[1]) == 114 && lower_code(s[2])
        == 117 && lower_code(s[3]) == 101)
}

/// Tests a form value for an affirmative reading.
pub fn is_truthy(s: &str) -> (r: bool)
    ensures
        r == spec_truthy(s@),
{
    let n = s.unicode_len();
    if n == 3 {
        let a = lower_char(s.get_char(0));
        let b = lower_char(s.get_char(1));
        let c = lower_char(s.get_char(2));
        a == 121 && b == 101 && c == 115
    } else if n == 1 {
        s.get_char(0) == '1'
    } else if n == 4 {
        let a = lower_char(s.get_char(0));
        let b = lower_char(s.get_char(1));
        let c = lower_char(s.get_char(2));
        let d = lower_char(s.get_char(3));
        a == 116 && b == 114 && c == 117 && d == 101
    } else {
        false
    }
}

fn lower_char(c: char) -> (r: u32)
    ensures
        r == lower_code(c),
{
    let v = c as u32;
    if 65 <= v && v <= 90 {
        v + 32
    } else {
        v
    }
}

/// Whether the string holds the at-sign somewhere.
pub open spec fn spec_has_at(s: Seq<char>) -> bool {
    exists|i: int| 0 <= i < s.len() && s[i] == '@'
}

/// Scans a string for the at-sign.
pub fn has_at_sign(s: &str) -> (r: bool)
    ensures
        r == spec_has_at(s@),
{
    let n = s.unicode_len();
    let mut i: usize = 0;
    while i < n
        invariant
            i <= n,
            n == s@.len(),
            forall|j: int| 0 <= j < i ==> s@[j] != '@',
        decreases n - i,
    {
        if s.get_char(i) == '@' {
            return true;
        }
        i = i + 1;
    }
    false
}

/// A fresh protocol block: empty host and credentials, the given port,
/// the account's address as user name, encrypted transport.
pub open spec fn spec_default_server(port: u16, username: Seq<char>) -> ServerConfigView {
    ServerConfigView {
        host: Seq::empty(),
        port,
        username,
        password: Seq::empty(),
        use_ssl: true,
    }
}

fn default_server(port: u16, username: &String) -> (r: ServerConfig)
    ensures
        r@ == spec_default_server(port, username@),
{
    let r = ServerConfig {
        host: String::new(),
        port,
        username: username.clone(),
        password: String::new(),
        use_ssl: true,
    };
    proof {
        assert(r@ =~= spec_default_server(port, username@));
    }
    r
}

/// The account after one field of the form is set to `value`: the addressed
/// field changes (a port only if `value` is a number that fits; a protocol
/// block only if it is enabled, starting from a fresh block when absent), and
/// afterwards each protocol block is dropped when disabled and freshly
/// created when enabled but absent.
pub open spec fn spec_set_field(v: FormView, value: Seq<char>) -> FormView {
    let w = spec_set_field_raw(v, value);
    let a1 = if !w.imap_enabled {
        EmailAccountView { imap: None, ..w.account }
    } else if w.account.imap is None {
        EmailAccountView {
            imap: Some(spec_default_server(993, w.account.email)),
            ..w.account
        }
    } else {
        w.account
    };
    let a2 = if !w.pop3_enabled {
        EmailAccountView { pop3: None, ..a1 }
    } else if a1.pop3 is None {
        EmailAccountView { pop3: Some(spec_default_server(995, a1.email)), ..a1 }
    } else {
        a1
    };
    FormView { account: a2, ..w }
}

/// The retrieval block a subfield edit starts from: the present one, or a
/// fresh one.
pub open spec fn spec_block_base(
    cfg: Option<ServerConfigView>,
    port: u16,
    email: Seq<char>,
) -> ServerConfigView {
    match cfg {
        Some(c) => c,
        None => spec_default_server(port, email),
    }
}

/// The field update itself, before protocol-block normalization.
pub open spec fn spec_set_field_raw(v: FormView, value: Seq<char>) -> FormView {
    match v.selected_field {
        0usize => FormView { account: EmailAccountView { id: value, ..v.account }, ..v },
        1usize => FormView { account: EmailAccountView { name: value, ..v.account }, ..v },
        2usize => FormView { account: EmailAccountView { email: value, ..v.account }, ..v },
        3usize => FormView { imap_enabled: spec_truthy(value), ..v },
        4usize => if v.imap_enabled {
            let base = spec_block_base(v.account.imap, 993, v.account.email);
            FormView {
                account: EmailAccountView {
                    imap: Some(ServerConfigView { host: value, ..base }),
                    ..v.account
                },
                ..v
            }
        } else {
            v
        },
        5usize => if v.imap_enabled && spec_port_of(value) is Some {
            let base = spec_block_base(v.account.imap, 993, v.account.email);
            FormView {
                account: EmailAccountView {
                    imap: Some(
                        ServerConfigView { port: spec_port_of(value)->Some_0, ..base },
                    ),
                    ..v.account
                },
                ..v
            }
        } else {
            v
        },
        6usize => if v.imap_enabled {
            let base = spec_block_base(v.account.imap, 993, v.account.email);
            FormView {
                account: EmailAccountView {
                    imap: Some(ServerConfigView { username: value, ..base }),
                    ..v.account
                },
                ..v
            }
        } else {
            v
        },
        7usize => if v.imap_enabled {
            let base = spec_block_base(v.account.imap, 993, v.account.email);
            FormView {
                account: EmailAccountView {
                    imap: Some(ServerConfigView { password: value, ..base }),
                    ..v.account
                },
                ..v
            }
        } else {
            v
        },
        8usize => if v.imap_enabled {
            let base = spec_block_base(v.account.imap, 993, v.account.email);
            FormView {
                account: EmailAccountView {
                    imap: Some(
                        ServerConfigView { use_ssl: spec_truthy(value), ..base },
                    ),
                    ..v.account
                },
                ..v
            }
        } else {
            v
        },
        9usize => FormView { pop3_enabled: spec_truthy(value), ..v },
        10usize => if v.pop3_enabled {
            let base = spec_block_base(v.account.pop3, 995, v.account.email);
            FormView {
                account: EmailAccountView {
                    pop3: Some(ServerConfigView { host: value, ..base }),
                    ..v.account
                },
                ..v
            }
        } else {
            v
        },
        11usize => if v.pop3_enabled && spec_port_of(value) is Some {
            let base = spec_block_base(v.account.pop3, 995, v.account.email);
            FormView {
                account: EmailAccountView {
                    pop3: Some(
                        ServerConfigView { port: spec_port_of(value)->Some_0, ..base },
                    ),
                    ..v.account
                },
                ..v
            }
        } else {
            v
        },
        12usize => if v.pop3_enabled {
            let base = spec_block_base(v.account.pop3, 995, v.account.email);
            FormView {
                account: EmailAccountView {
                    pop3: Some(ServerConfigView { username: value, ..base }),
                    ..v.account
                },
                ..v
            }
        } else {
            v
        },
        13usize => if v.pop3_enabled {
            let base = spec_block_base(v.account.pop3, 995, v.account.email);
            FormView {
                account: EmailAccountView {
                    pop3: Some(ServerConfigView { password: value, ..base }),
                    ..v.account
                },
                ..v
            }
        } else {
            v
        },
        14usize => if v.pop3_enabled {
            let base = spec_block_base(v.account.pop3, 995, v.account.email);
            FormView {
                account: EmailAccountView {
                    pop3: Some(
                        ServerConfigView { use_ssl: spec_truthy(value), ..base },
                    ),
                    ..v.account
                },
                ..v
            }
        } else {
            v
        },
        15usize => FormView {
            account: EmailAccountView {
                smtp: ServerConfigView { host: value, ..v.account.smtp },
                ..v.account
            },
            ..v
        },
        16usize => if spec_port_of(value) is Some {
            FormView {
                account: EmailAccountView {
                    smtp: ServerConfigView {
                        port: spec_port_of(value)->Some_0,
                        ..v.account.smtp
                    },
                    ..v.account
                },
                ..v
            }
        } else {
            v
        },
        17usize => FormView {
            account: EmailAccountView {
                smtp: ServerConfigView { username: value, ..v.account.smtp },
                ..v.account
            },
            ..v
        },
        18usize => FormView {
            account: EmailAccountView {
                smtp: ServerConfigView { password: value, ..v.account.smtp },
                ..v.account
            },
            ..v
        },
        19usize => FormView {
            account: EmailAccountView {
                smtp: ServerConfigView {
                    use_ssl: spec_truthy(value),
                    ..v.account.smtp
                },
                ..v.account
            },
            ..v
        },
        _ => v,
    }
}

/// The port a form value denotes, when it is a nonempty decimal number that
/// fits.
pub open spec fn spec_port_of(value: Seq<char>) -> Option<u16> {
    if value.len() > 0 && (forall|i: int| 0 <= i < value.len() ==> is_dec_char(#[trigger] value[i]))
        && spec_dec_value_chars(value) <= u16::MAX {
        Some(spec_dec_value_chars(value) as u16)
    } else {
        None
    }
}

/// Whether the field at `f` is invalid under the form's validation rules,
/// for the given account and protocol-block flags.
pub open spec fn spec_field_invalid(
    a: EmailAccountView,
    imap_on: bool,
    pop3_on: bool,
    f: usize,
) -> bool {
    match f {
        0usize => a.id.len() == 0,
        1usize => a.name.len() == 0,
        2usize => a.email.len() == 0 || !spec_has_at(a.email),
        3usize => imap_on && a.imap is None,
        4usize => imap_on && (a.imap matches Some(c) && c.host.len() == 0),
        6usize => imap_on && (a.imap matches Some(c) && c.username.len() == 0),
        7usize => imap_on && (a.imap matches Some(c) && c.password.len() == 0),
        9usize => pop3_on && a.pop3 is None,
        10usize => pop3_on && (a.pop3 matches Some(c) && c.host.len() == 0),
        12usize => pop3_on && (a.pop3 matches Some(c) && c.username.len() == 0),
        13usize => pop3_on && (a.pop3 matches Some(c) && c.password.len() == 0),
        15usize => a.smtp.host.len() == 0,
        17usize => a.smtp.username.len() == 0,
        18usize => a.smtp.password.len() == 0,
        _ => false,
    }
}

/// Whether every field of the form is valid.
pub open spec fn spec_form_valid(a: EmailAccountView, imap_on: bool, pop3_on: bool) -> bool {
    forall|f: usize| !spec_field_invalid(a, imap_on, pop3_on, f)
}

/// The finding text for an invalid field.
pub open spec fn spec_error_message(a: EmailAccountView, f: usize) -> Seq<char> {
    match f {
        0usize => "Account ID is required"@,
        1usize => "Account name is required"@,
        2usize => if a.email.len() == 0 {
            "Email is required"@
        } else {
            "Invalid email format"@
        },
        3usize => "IMAP settings are incomplete"@,
        4usize => "IMAP host is required"@,
        6usize => "IMAP username is required"@,
        7usize => "IMAP password is required"@,
        9usize => "POP3 settings are incomplete"@,
        10usize => "POP3 host is required"@,
        12usize => "POP3 username is required"@,
        13usize => "POP3 password is required"@,
        15usize => "SMTP host is required"@,
        17usize => "SMTP username is required"@,
        18usize => "SMTP password is required"@,
        _ => Seq::empty(),
    }
}

/// The finding for field `f`: one entry when the field is invalid, nothing
/// otherwise.
pub open spec fn spec_finding(
    a: EmailAccountView,
    imap_on: bool,
    pop3_on: bool,
    f: usize,
) -> Seq<(usize, Seq<char>)> {
    if spec_field_invalid(a, imap_on, pop3_on, f) {
        seq![(f, spec_error_message(a, f))]
    } else {
        Seq::empty()
    }
}

/// The identity findings: account id, display name, address.
pub open spec fn spec_identity_findings(a: EmailAccountView, imap_on: bool, pop3_on: bool) -> Seq<
    (usize, Seq<char>),
> {
    spec_finding(a, imap_on, pop3_on, 0) + spec_finding(a, imap_on, pop3_on, 1) + spec_finding(
        a,
        imap_on,
        pop3_on,
        2,
    )
}

/// The rich retrieval block's findings.
pub open spec fn spec_imap_findings(a: EmailAccountView, imap_on: bool, pop3_on: bool) -> Seq<
    (usize, Seq<char>),
> {
    spec_finding(a, imap_on, pop3_on, 3) + spec_finding(a, imap_on, pop3_on, 4) + spec_finding(
        a,
        imap_on,
        pop3_on,
        6,
    ) + spec_finding(a, imap_on, pop3_on, 7)
}

/// The line retrieval block's findings.
pub open spec fn spec_pop3_findings(a: EmailAccountView, imap_on: bool, pop3_on: bool) -> Seq<
    (usize, Seq<char>),
> {
    spec_finding(a, imap_on, pop3_on, 9) + spec_finding(a, imap_on, pop3_on, 10) + spec_finding(
        a,
        imap_on,
        pop3_on,
        12,
    ) + spec_finding(a, imap_on, pop3_on, 13)
}

/// The delivery block's findings.
pub open spec fn spec_smtp_findings(a: EmailAccountView, imap_on: bool, pop3_on: bool) -> Seq<
    (usize, Seq<char>),
> {
    spec_finding(a, imap_on, pop3_on, 15) + spec_finding(a, imap_on, pop3_on, 17) + spec_finding(
        a,
        imap_on,
        pop3_on,
        18,
    )
}

/// The whole findings list, fields in check order.
pub open spec fn spec_validation_findings(
    a: EmailAccountView,
    imap_on: bool,
    pop3_on: bool,
) -> Seq<(usize, Seq<char>)> {
    spec_identity_findings(a, imap_on, pop3_on) + spec_imap_findings(a, imap_on, pop3_on)
        + spec_pop3_findings(a, imap_on, pop3_on) + spec_smtp_findings(a, imap_on, pop3_on)
}

/// The view of an exec findings list.
pub open spec fn findings_of(v: Seq<(usize, String)>) -> Seq<(usize, Seq<char>)> {
    Seq::new(v.len(), |i: int| (v[i].0, v[i].1@))
}

/// A form is valid exactly when validation records no finding.
#[verifier::rlimit(100)]
#[verifier::spinoff_prover]
pub proof fn lemma_findings_iff_valid(a: EmailAccountView, imap_on: bool, pop3_on: bool)
    ensures
        spec_validation_findings(a, imap_on, pop3_on).len() == 0 <==> spec_form_valid(
            a,
            imap_on,
            pop3_on,
        ),
{
    if spec_validation_findings(a, imap_on, pop3_on).len() == 0 {
        assert forall|f: usize| !spec_field_invalid(a, imap_on, pop3_on, f) by {
            if f == 0 || f == 1 || f == 2 || f == 3 || f == 4 || f == 6 || f == 7 || f == 9 || f
                == 10 || f == 12 || f == 13 || f == 15 || f == 17 || f == 18 {
                assert(spec_finding(a, imap_on, pop3_on, f).len() == 0);
            }
        }
    } else {
        if spec_form_valid(a, imap_on, pop3_on) {
            assert(spec_finding(a, imap_on, pop3_on, 0).len() == 0 && spec_finding(
                a,
                imap_on,
                pop3_on,
                1,
            ).len() == 0 && spec_finding(a, imap_on, pop3_on, 2).len() == 0 && spec_finding(
                a,
                imap_on,
                pop3_on,
                3,
            ).len() == 0 && spec_finding(a, imap_on, pop3_on, 4).len() == 0 && spec_finding(
                a,
                imap_on,
                pop3_on,
                6,
            ).len() == 0 && spec_finding(a, imap_on, pop3_on, 7).len() == 0 && spec_finding(
                a,
                imap_on,
                pop3_on,
                9,
            ).len() == 0 && spec_finding(a, imap_on, pop3_on, 10).len() == 0 && spec_finding(
                a,
                imap_on,
                pop3_on,
                12,
            ).len() == 0 && spec_finding(a, imap_on, pop3_on, 13).len() == 0 && spec_finding(
                a,
                imap_on,
                pop3_on,
                15,
            ).len() == 0 && spec_finding(a, imap_on, pop3_on, 17).len() == 0 && spec_finding(
                a,
                imap_on,
                pop3_on,
                18,
            ).len() == 0);
            assert(false);
        }
    }
}

/// Whether the form's findings list records field `f` as invalid, with its
/// finding text.
pub open spec fn spec_has_error(v: FormView, f: usize) -> bool {
    exists|i: int|
        #![trigger v.validation_errors[i]]
        0 <= i < v.validation_errors.len() && v.validation_errors[i].0 == f
}

impl AccountFormState {
    /// The form for adding a new account: empty identity, both retrieval
    /// blocks off, a fresh delivery block on the submission port.
    pub fn new() -> (r: AccountFormState)
        ensures
            r@.account.id.len() == 0,
            r@.account.name.len() == 0,
            r@.account.email.len() == 0,
            r@.account.imap is None,
            r@.account.pop3 is None,
            r@.account.smtp == spec_default_server(587, Seq::<char>::empty()),
            r@.selected_field == 0,
            r@.editing == false,
            r@.edit_buffer.len() == 0,
            r@.validation_errors.len() == 0,
            r@.is_new_account == true,
            r@.imap_enabled == false,
            r@.pop3_enabled == false,
    {
        let smtp = ServerConfig {
            host: String::new(),
            port: 587,
            username: String::new(),
            password: String::new(),
            use_ssl: true,
        };
        let account = EmailAccount {
            id: String::new(),
            name: String::new(),
            email: String::new(),
            imap: None,
            pop3: None,
            smtp,
        };
        let r = AccountFormState {
            account,
            selected_field: 0,
            editing: false,
            edit_buffer: String::new(),
            validation_errors: Vec::new(),
            is_new_account: true,
            imap_enabled: false,
            pop3_enabled: false,
        };
        proof {
            assert(r@.account.smtp =~= spec_default_server(587, Seq::<char>::empty()));
            assert(r@.validation_errors =~= Seq::<(usize, Seq<char>)>::empty());
        }
        r
    }

    /// The form for editing an existing account: each retrieval block is
    /// enabled exactly when the account configures it.
    pub fn from_account(account: EmailAccount) -> (r: AccountFormState)
        ensures
            r@.account == account@,
            r@.selected_field == 0,
            r@.editing == false,
            r@.edit_buffer.len() == 0,
            r@.validation_errors.len() == 0,
            r@.is_new_account == false,
            r@.imap_enabled == (account@.imap is Some),
            r@.pop3_enabled == (account@.pop3 is Some),
    {
        let imap_enabled = account.imap.is_some();
        let pop3_enabled = account.pop3.is_some();
        let r = AccountFormState {
            account,
            selected_field: 0,
            editing: false,
            edit_buffer: String::new(),
            validation_errors: Vec::new(),
            is_new_account: false,
            imap_enabled,
            pop3_enabled,
        };
        proof {
            assert(r@.validation_errors =~= Seq::<(usize, Seq<char>)>::empty());
        }
        r
    }

    /// The name of the selected field.
    pub fn get_selected_field_name(&self) -> (r: &'static str)
        ensures
            r@ == spec_field_name(self@.selected_field),
    {
        match self.selected_field {
            0 => "account_id",
            1 => "account_name",
            2 => "email",
            3 => "imap_enabled",
            4 => "imap_host",
            5 => "imap_port",
            6 => "imap_username",
            7 => "imap_password",
            8 => "imap_ssl",
            9 => "pop3_enabled",
            10 => "pop3_host",
            11 => "pop3_port",
            12 => "pop3_username",
            13 => "pop3_password",
            14 => "pop3_ssl",
            15 => "smtp_host",
            16 => "smtp_port",
            17 => "smtp_username",
            18 => "smtp_password",
            19 => "smtp_ssl",
            20 => "save_button",
            21 => "cancel_button",
            _ => "unknown",
        }
    }

    /// The displayed value of the selected field.
    pub fn get_selected_field_value(&self) -> (r: String)
        ensures
            r@ == spec_selected_value(self@),
    {
        match self.selected_field {
            0 => self.account.id.clone(),
            1 => self.account.name.clone(),
            2 => self.account.email.clone(),
            3 => yes_no_string(self.imap_enabled),
            4 => match &self.account.imap {
                Some(c) => c.host.clone(),
                None => String::new(),
            },
            5 => match &self.account.imap {
                Some(c) => u64_dec_string(c.port as u64),
                None => "993".to_owned(),
            },
            6 => match &self.account.imap {
                Some(c) => c.username.clone(),
                None => String::new(),
            },
            7 => match &self.account.imap {
                Some(c) => c.password.clone(),
                None => String::new(),
            },
            8 => match &self.account.imap {
                Some(c) => yes_no_string(c.use_ssl),
                None => "Yes".to_owned(),
            },
            9 => yes_no_string(self.pop3_enabled),
            10 => match &self.account.pop3 {
                Some(c) => c.host.clone(),
                None => String::new(),
            },
            11 => match &self.account.pop3 {
                Some(c) => u64_dec_string(c.port as u64),
                None => "995".to_owned(),
            },
            12 => match &self.account.pop3 {
                Some(c) => c.username.clone(),
                None => String::new(),
            },
            13 => match &self.account.pop3 {
                Some(c) => c.password.clone(),
                None => String::new(),
            },
            14 => match &self.account.pop3 {
                Some(c) => yes_no_string(c.use_ssl),
                None => "Yes".to_owned(),
            },
            15 => self.account.smtp.host.clone(),
            16 => u64_dec_string(self.account.smtp.port as u64),
            17 => self.account.smtp.username.clone(),
            18 => self.account.smtp.password.clone(),
            19 => yes_no_string(self.account.smtp.use_ssl),
            20 => "Save".to_owned(),
            21 => "Cancel".to_owned(),
            _ => String::new(),
        }
    }

    /// Sets the selected field to `value`, as [`spec_set_field`] lays down.
    pub fn set_selected_field_value(&mut self, value: String)
        ensures
            final(self)@ == spec_set_field(old(self)@, value@),
    {
        match self.selected_field {
            0 => self.account.id = value,
            1 => self.account.name = value,
            2 => self.account.email = value,
            3 => self.imap_enabled = is_truthy(value.as_str()),
            4 => {
                if self.imap_enabled {
                    let mut block = self.take_imap_base();
                    block.host = value;
                    self.account.imap = Some(block);
                }
            },
            5 => {
                if self.imap_enabled {
                    match parse_dec_u16(value.as_str()) {
                        Some(port) => {
                            let mut block = self.take_imap_base();
                            block.port = port;
                            self.account.imap = Some(block);
                        },
                        None => {},
                    }
                }
            },
            6 => {
                if self.imap_enabled {
                    let mut block = self.take_imap_base();
                    block.username = value;
                    self.account.imap = Some(block);
                }
            },
            7 => {
                if self.imap_enabled {
                    let mut block = self.take_imap_base();
                    block.password = value;
                    self.account.imap = Some(block);
                }
            },
            8 => {
                if self.imap_enabled {
                    let flag = is_truthy(value.as_str());
                    let mut block = self.take_imap_base();
                    block.use_ssl = flag;
                    self.account.imap = Some(block);
                }
            },
            9 => self.pop3_enabled = is_truthy(value.as_str()),
            10 => {
                if self.pop3_enabled {
                    let mut block = self.take_pop3_base();
                    block.host = value;
                    self.account.pop3 = Some(block);
                }
            },
            11 => {
                if self.pop3_enabled {
                    match parse_dec_u16(value.as_str()) {
                        Some(port) => {
                            let mut block = self.take_pop3_base();
                            block.port = port;
                            self.account.pop3 = Some(block);
                        },
                        None => {},
                    }
                }
            },
            12 => {
                if self.pop3_enabled {
                    let mut block = self.take_pop3_base();
                    block.username = value;
                    self.account.pop3 = Some(block);
                }
            },
            13 => {
                if self.pop3_enabled {
                    let mut block = self.take_pop3_base();
                    block.password = value;
                    self.account.pop3 = Some(block);
                }
            },
            14 => {
                if self.pop3_enabled {
                    let flag = is_truthy(value.as_str());
                    let mut block = self.take_pop3_base();
                    block.use_ssl = flag;
                    self.account.pop3 = Some(block);
                }
            },
            15 => self.account.smtp.host = value,
            16 => {
                match parse_dec_u16(value.as_str()) {
                    Some(port) => {
                        self.account.smtp.port = port;
                    },
                    None => {},
                }
            },
            17 => self.account.smtp.username = value,
            18 => self.account.smtp.password = value,
            19 => self.account.smtp.use_ssl = is_truthy(value.as_str()),
            _ => {},
        }
        let ghost mid = self@;
        proof {
            assert(mid =~= spec_set_field_raw(old(self)@, value@));
        }
        if !self.imap_enabled {
            self.account.imap = None;
        } else if self.account.imap.is_none() {
            self.account.imap = Some(default_server(993, &self.account.email));
        }
        if !self.pop3_enabled {
            self.account.pop3 = None;
        } else if self.account.pop3.is_none() {
            self.account.pop3 = Some(default_server(995, &self.account.email));
        }
        proof {
            assert(self@ =~= spec_set_field(old(self)@, value@));
        }
    }

    /// The enabled retrieval block, taken out to be edited: the present one
    /// or a fresh one.
    fn take_imap_base(&mut self) -> (r: ServerConfig)
        ensures
            r@ == spec_block_base(old(self)@.account.imap, 993, old(self)@.account.email),
            final(self)@ == (FormView {
                account: EmailAccountView { imap: None, ..old(self)@.account },
                ..old(self)@
            }),
    {
        match self.account.imap.take() {
            Some(c) => c,
            None => default_server(993, &self.account.email),
        }
    }

    fn take_pop3_base(&mut self) -> (r: ServerConfig)
        ensures
            r@ == spec_block_base(old(self)@.account.pop3, 995, old(self)@.account.email),
            final(self)@ == (FormView {
                account: EmailAccountView { pop3: None, ..old(self)@.account },
                ..old(self)@
            }),
    {
        match self.account.pop3.take() {
            Some(c) => c,
            None => default_server(995, &self.account.email),
        }
    }

    /// Checks every field: the findings list is rebuilt in field order and
    /// the answer says whether the form is valid.
    pub fn validate(&mut self) -> (r: bool)
        ensures
            r == spec_form_valid(
                old(self)@.account,
                old(self)@.imap_enabled,
                old(self)@.pop3_enabled,
            ),
            final(self)@ == (FormView {
                validation_errors: spec_validation_findings(
                    old(self)@.account,
                    old(self)@.imap_enabled,
                    old(self)@.pop3_enabled,
                ),
                ..old(self)@
            }),
    {
        let ghost pre = self@;
        let findings = build_findings(&self.account, self.imap_enabled, self.pop3_enabled);
        let valid = findings.len() == 0;
        self.validation_errors = findings;
        proof {
            lemma_findings_iff_valid(pre.account, pre.imap_enabled, pre.pop3_enabled);
            assert(self@.validation_errors == findings_of(self.validation_errors@));
            assert(self@ =~= FormView {
                validation_errors: spec_validation_findings(
                    pre.account,
                    pre.imap_enabled,
                    pre.pop3_enabled,
                ),
                ..pre
            });
        }
        valid
    }

    /// The finding for a field, if validation recorded one.
    pub fn get_validation_error(&self, field: usize) -> (r: Option<&String>)
        ensures
            r is Some <==> spec_has_error(self@, field),
            r matches Some(m) ==> exists|i: int|
                0 <= i < self@.validation_errors.len() && (#[trigger] self@.validation_errors[i])
                    == (field, m@),
    {
        let n = self.validation_errors.len();
        let mut i: usize = 0;
        while i < n
            invariant
                i <= n,
                n == self@.validation_errors.len(),
                forall|j: int|
                    0 <= j < i ==> (#[trigger] self.validation_errors@[j]).0 != field,
            decreases n - i,
        {
            if self.validation_errors[i].0 == field {
                proof {
                    assert(self@.validation_errors[i as int] == (
                        self.validation_errors@[i as int].0,
                        self.validation_errors@[i as int].1@,
                    ));
                }
                return Some(&self.validation_errors[i].1);
            }
            i = i + 1;
        }
        proof {
            assert forall|j: int|
                0 <= j < self@.validation_errors.len() implies (
            #[trigger] self@.validation_errors[j]).0 != field by {
                assert(self@.validation_errors[j].0 == self.validation_errors@[j].0);
            }
        }
        None
    }

    /// Whether validation recorded a finding for the field.
    pub fn has_validation_error(&self, field: usize) -> (r: bool)
        ensures
            r == spec_has_error(self@, field),
    {
        match self.get_validation_error(field) {
            Some(_) => true,
            None => false,
        }
    }

    /// Begins editing the selected field, seeding the buffer with its value.
    pub fn start_editing(&mut self)
        ensures
            final(self)@ == (FormView {
                editing: true,
                edit_buffer: spec_selected_value(old(self)@),
                ..old(self)@
            }),
    {
        self.editing = true;
        self.edit_buffer = self.get_selected_field_value();
    }

    /// Ends editing, applying the buffer to the selected field and clearing
    /// the buffer.
    pub fn stop_editing(&mut self)
        ensures
            final(self)@ == (FormView {
                edit_buffer: Seq::<char>::empty(),
                ..spec_set_field(
                    FormView { editing: false, ..old(self)@ },
                    old(self)@.edit_buffer,
                )
            }),
    {
        self.editing = false;
        let buffer = self.edit_buffer.clone();
        self.set_selected_field_value(buffer);
        self.edit_buffer = String::new();
    }

    /// Ends editing without applying the buffer.
    pub fn cancel_editing(&mut self)
        ensures
            final(self)@ == (FormView {
                editing: false,
                edit_buffer: Seq::<char>::empty(),
                ..old(self)@
            }),
    {
        self.editing = false;
        self.edit_buffer = String::new();
    }

    /// The previous selectable field, wrapping at the top and skipping a
    /// disabled retrieval block.
    pub open spec fn spec_prev_field(v: FormView) -> usize {
        let p = if v.selected_field > 0 {
            (v.selected_field - 1) as usize
        } else {
            last_field()
        };
        let q = if !v.imap_enabled && 4 <= p <= 8 {
            3usize
        } else {
            p
        };
        if !v.pop3_enabled && 10 <= q <= 14 {
            9usize
        } else {
            q
        }
    }

    /// The next selectable field, wrapping at the bottom and skipping a
    /// disabled retrieval block.
    pub open spec fn spec_next_field(v: FormView) -> usize {
        let p = if v.selected_field < last_field() {
            (v.selected_field + 1) as usize
        } else {
            0usize
        };
        let q = if !v.imap_enabled && 4 <= p <= 8 {
            9usize
        } else {
            p
        };
        if !v.pop3_enabled && 10 <= q <= 14 {
            15usize
        } else {
            q
        }
    }

    /// Moves the selection to the previous field.
    pub fn select_previous_field(&mut self)
        ensures
            final(self)@ == (FormView {
                selected_field: Self::spec_prev_field(old(self)@),
                ..old(self)@
            }),
    {
        if self.selected_field > 0 {
            self.selected_field = self.selected_field - 1;
        } else {
            self.selected_field = 21;
        }
        if !self.imap_enabled && self.selected_field >= 4 && self.selected_field <= 8 {
            self.selected_field = 3;
        }
        if !self.pop3_enabled && self.selected_field >= 10 && self.selected_field <= 14 {
            self.selected_field = 9;
        }
    }

    /// Moves the selection to the next field.
    pub fn select_next_field(&mut self)
        ensures
            final(self)@ == (FormView {
                selected_field: Self::spec_next_field(old(self)@),
                ..old(self)@
            }),
    {
        if self.selected_field < 21 {
            self.selected_field = self.selected_field + 1;
        } else {
            self.selected_field = 0;
        }
        if !self.imap_enabled && self.selected_field >= 4 && self.selected_field <= 8 {
            self.selected_field = 9;
        }
        if !self.pop3_enabled && self.selected_field >= 10 && self.selected_field <= 14 {
            self.selected_field = 15;
        }
    }

    /// The form after the selected flag field is toggled: enabling a
    /// retrieval block creates it fresh when absent; the transport flags flip
    /// in place.
    pub open spec fn spec_toggled(v: FormView) -> FormView {
        match v.selected_field {
            3usize => {
                let enabled = !v.imap_enabled;
                if enabled && v.account.imap is None {
                    FormView {
                        imap_enabled: enabled,
                        account: EmailAccountView {
                            imap: Some(spec_default_server(993, v.account.email)),
                            ..v.account
                        },
                        ..v
                    }
                } else {
                    FormView { imap_enabled: enabled, ..v }
                }
            },
            8usize => match v.account.imap {
                Some(c) => FormView {
                    account: EmailAccountView {
                        imap: Some(ServerConfigView { use_ssl: !c.use_ssl, ..c }),
                        ..v.account
                    },
                    ..v
                },
                None => v,
            },
            9usize => {
                let enabled = !v.pop3_enabled;
                if enabled && v.account.pop3 is None {
                    FormView {
                        pop3_enabled: enabled,
                        account: EmailAccountView {
                            pop3: Some(spec_default_server(995, v.account.email)),
                            ..v.account
                        },
                        ..v
                    }
                } else {
                    FormView { pop3_enabled: enabled, ..v }
                }
            },
            14usize => match v.account.pop3 {
                Some(c) => FormView {
                    account: EmailAccountView {
                        pop3: Some(ServerConfigView { use_ssl: !c.use_ssl, ..c }),
                        ..v.account
                    },
                    ..v
                },
                None => v,
            },
            19usize => FormView {
                account: EmailAccountView {
                    smtp: ServerConfigView {
                        use_ssl: !v.account.smtp.use_ssl,
                        ..v.account.smtp
                    },
                    ..v.account
                },
                ..v
            },
            _ => v,
        }
    }

    /// Toggles the selected flag field.
    pub fn toggle_boolean_field(&mut self)
        ensures
            final(self)@ == Self::spec_toggled(old(self)@),
    {
        match self.selected_field {
            3 => {
                self.imap_enabled = !self.imap_enabled;
                if self.imap_enabled && self.account.imap.is_none() {
                    self.account.imap = Some(default_server(993, &self.account.email));
                }
            },
            8 => {
                match self.account.imap.take() {
                    Some(mut c) => {
                        c.use_ssl = !c.use_ssl;
                        self.account.imap = Some(c);
                    },
                    None => {},
                }
            },
            9 => {
                self.pop3_enabled = !self.pop3_enabled;
                if self.pop3_enabled && self.account.pop3.is_none() {
                    self.account.pop3 = Some(default_server(995, &self.account.email));
                }
            },
            14 => {
                match self.account.pop3.take() {
                    Some(mut c) => {
                        c.use_ssl = !c.use_ssl;
                        self.account.pop3 = Some(c);
                    },
                    None => {},
                }
            },
            19 => {
                self.account.smtp.use_ssl = !self.account.smtp.use_ssl;
            },
            _ => {},
        }
        proof {
            assert(self@ =~= Self::spec_toggled(old(self)@));
        }
    }

    /// The account the form stands for: a disabled retrieval block is
    /// dropped.
    pub fn finalize_account(&self) -> (r: EmailAccount)
        ensures
            r@ == (EmailAccountView {
                imap: if self@.imap_enabled {
                    self@.account.imap
                } else {
                    None
                },
                pop3: if self@.pop3_enabled {
                    self@.account.pop3
                } else {
                    None
                },
                ..self@.account
            }),
    {
        let mut account = self.account.duplicate();
        if !self.imap_enabled {
            account.imap = None;
        }
        if !self.pop3_enabled {
            account.pop3 = None;
        }
        proof {
            assert(account@ =~= EmailAccountView {
                imap: if self@.imap_enabled {
                    self@.account.imap
                } else {
                    None
                },
                pop3: if self@.pop3_enabled {
                    self@.account.pop3
                } else {
                    None
                },
                ..self@.account
            });
        }
        account
    }
}

/// Builds the findings list for the given account and protocol-block flags,
/// fields in check order.
fn build_findings(account: &EmailAccount, imap_on: bool, pop3_on: bool) -> (r: Vec<
    (usize, String),
>)
    ensures
        findings_of(r@) == spec_validation_findings(account@, imap_on, pop3_on),
{
    let mut errors: Vec<(usize, String)> = Vec::new();
    proof {
        assert(findings_of(errors@) =~= Seq::<(usize, Seq<char>)>::empty());
    }
    check_identity(account, imap_on, pop3_on, &mut errors);
    check_imap(account, imap_on, pop3_on, &mut errors);
    check_pop3(account, imap_on, pop3_on, &mut errors);
    check_smtp(account, imap_on, pop3_on, &mut errors);
    proof {
        assert(findings_of(errors@) =~= spec_validation_findings(account@, imap_on, pop3_on));
    }
    errors
}

fn check_identity(
    account: &EmailAccount,
    imap_on: bool,
    pop3_on: bool,
    errors: &mut Vec<(usize, String)>,
)
    ensures
        findings_of(final(errors)@) == findings_of(old(errors)@) + spec_identity_findings(
            account@,
            imap_on,
            pop3_on,
        ),
{
    let ghost base = findings_of(errors@);
    if account.id.as_str().is_empty() {
        errors.push((0, "Account ID is required".to_owned()));
    }
    proof {
        assert(findings_of(errors@) =~= base + spec_finding(account@, imap_on, pop3_on, 0));
    }
    if account.name.as_str().is_empty() {
        errors.push((1, "Account name is required".to_owned()));
    }
    proof {
        assert(findings_of(errors@) =~= base + spec_finding(account@, imap_on, pop3_on, 0)
            + spec_finding(account@, imap_on, pop3_on, 1));
    }
    if account.email.as_str().is_empty() {
        errors.push((2, "Email is required".to_owned()));
    } else if !has_at_sign(account.email.as_str()) {
        errors.push((2, "Invalid email format".to_owned()));
    }
    proof {
        assert(findings_of(errors@) =~= base + spec_finding(account@, imap_on, pop3_on, 0)
            + spec_finding(account@, imap_on, pop3_on, 1) + spec_finding(
            account@,
            imap_on,
            pop3_on,
            2,
        ));
        assert(findings_of(errors@) =~= base + spec_identity_findings(account@, imap_on, pop3_on));
    }
}

fn check_imap(
    account: &EmailAccount,
    imap_on: bool,
    pop3_on: bool,
    errors: &mut Vec<(usize, String)>,
)
    ensures
        findings_of(final(errors)@) == findings_of(old(errors)@) + spec_imap_findings(
            account@,
            imap_on,
            pop3_on,
        ),
{
    let ghost base = findings_of(errors@);
    if imap_on {
        match &account.imap {
            Some(c) => {
                if c.host.as_str().is_empty() {
                    errors.push((4, "IMAP host is required".to_owned()));
                }
                if c.username.as_str().is_empty() {
                    errors.push((6, "IMAP username is required".to_owned()));
                }
                if c.password.as_str().is_empty() {
                    errors.push((7, "IMAP password is required".to_owned()));
                }
            },
            None => {
                errors.push((3, "IMAP settings are incomplete".to_owned()));
            },
        }
    }
    proof {
        assert(findings_of(errors@) =~= base + spec_imap_findings(account@, imap_on, pop3_on));
    }
}

fn check_pop3(
    account: &EmailAccount,
    imap_on: bool,
    pop3_on: bool,
    errors: &mut Vec<(usize, String)>,
)
    ensures
        findings_of(final(errors)@) == findings_of(old(errors)@) + spec_pop3_findings(
            account@,
            imap_on,
            pop3_on,
        ),
{
    let ghost base = findings_of(errors@);
    if pop3_on {
        match &account.pop3 {
            Some(c) => {
                if c.host.as_str().is_empty() {
                    errors.push((10, "POP3 host is required".to_owned()));
                }
                if c.username.as_str().is_empty() {
                    errors.push((12, "POP3 username is required".to_owned()));
                }
                if c.password.as_str().is_empty() {
                    errors.push((13, "POP3 password is required".to_owned()));
                }
            },
            None => {
                errors.push((9, "POP3 settings are incomplete".to_owned()));
            },
        }
    }
    proof {
        assert(findings_of(errors@) =~= base + spec_pop3_findings(account@, imap_on, pop3_on));
    }
}

fn check_smtp(
    account: &EmailAccount,
    imap_on: bool,
    pop3_on: bool,
    errors: &mut Vec<(usize, String)>,
)
    ensures
        findings_of(final(errors)@) == findings_of(old(errors)@) + spec_smtp_findings(
            account@,
            imap_on,
            pop3_on,
        ),
{
    let ghost base = findings_of(errors@);
    if account.smtp.host.as_str().is_empty() {
        errors.push((15, "SMTP host is required".to_owned()));
    }
    if account.smtp.username.as_str().is_empty() {
        errors.push((17, "SMTP username is required".to_owned()));
    }
    if account.smtp.password.as_str().is_empty() {
        errors.push((18, "SMTP password is required".to_owned()));
    }
    proof {
        assert(findings_of(errors@) =~= base + spec_smtp_findings(account@, imap_on, pop3_on));
    }
}

/// `Yes` or `No` as a string./// `Yes` or `No` as a string.
fn yes_no_string(b: bool) -> (r: String)
    ensures
        r@ == spec_yes_no(b),
{
    if b {
        "Yes".to_owned()
    } else {
        "No".to_owned()
    }
}

} // verus!
