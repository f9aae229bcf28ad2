//! Tests of the account records, the orchestrator, the health loop's
//! decisions, the configuration manager and the form state.

use linksy::account::{Account, AccountSummary, ConnectionStatus, Protocol};
use linksy::account_manager::{AccountManager, ConnectOutcomes};
use linksy::config::{AppConfig, AppSettings, ConfigManager, EmailAccount, ServerConfig};
use linksy::email_manager::fetch_choice;
use linksy::errors::ConfigError;
use linksy::health::{
    apply_probe_result, apply_reconnect_result, health_plan, ConnectionManager, TickAction,
};
use linksy::imap::fetch_sequence;
use linksy::smtp::{send_plan, BodyStructure};
use linksy::ui_state::AccountFormState;

fn server(host: &str, port: u16) -> ServerConfig {
    ServerConfig {
        host: host.to_string(),
        port,
        username: "user".to_string(),
        password: "pw".to_string(),
        use_ssl: true,
    }
}

fn account_config(id: &str, imap: bool, pop3: bool) -> EmailAccount {
    EmailAccount {
        id: id.to_string(),
        name: "Alice".to_string(),
        email: "alice@example.org".to_string(),
        imap: if imap { Some(server("imap.example.org", 993)) } else { None },
        pop3: if pop3 { Some(server("pop.example.org", 995)) } else { None },
        smtp: server("smtp.example.org", 587),
    }
}

fn manager_with(config: &AppConfig) -> AccountManager {
    let cm = ConfigManager::with_config("config.json", AppConfig {
        accounts: config.accounts.iter().map(|a| a.duplicate()).collect(),
        settings: AppSettings {
            default_account: None,
            auto_check: true,
            check_interval: 15,
        },
    });
    let mut m = AccountManager::new();
    m.load_accounts(&cm);
    m
}

#[test]
fn fresh_account_is_disconnected_everywhere() {
    let a = Account::new(account_config("a1", true, true));
    assert_eq!(a.imap_status, ConnectionStatus::Disconnected);
    assert_eq!(a.smtp_status, ConnectionStatus::Disconnected);
    assert_eq!(a.pop3_status, ConnectionStatus::Disconnected);
    assert!(a.last_error.is_none());
    assert_eq!(a.unread_count, 0);
    assert_eq!(a.total_count, 0);
    assert_eq!(a.folders, vec!["INBOX".to_string()]);
    assert!(a.has_imap());
    assert!(a.has_pop3());
}

#[test]
fn display_and_status_summaries() {
    let mut a = Account::new(account_config("a1", true, false));
    assert_eq!(a.get_display_name(), "Alice <alice@example.org>".to_string());
    a.imap_status = ConnectionStatus::Connected;
    a.smtp_status = ConnectionStatus::Failed;
    assert_eq!(a.get_status_summary(), "IMAP: ✓ | SMTP: ✗ | POP3: -".to_string());
    a.apply_stat(3, 3);
    assert_eq!(a.get_unread_summary(), "3 unread".to_string());
    a.apply_stat(3, 0);
    assert_eq!(a.get_unread_summary(), "No unread messages".to_string());
}

#[test]
fn summary_mirrors_the_record() {
    let mut a = Account::new(account_config("a1", true, false));
    a.pop3_status = ConnectionStatus::Connecting;
    a.apply_stat(9, 4);
    let s = AccountSummary::of_account(&a);
    assert_eq!(s.id, "a1".to_string());
    assert_eq!(s.get_display_name(), "Alice <alice@example.org>".to_string());
    assert_eq!(s.get_status_summary(), "IMAP: - | SMTP: - | POP3: ⟳".to_string());
    assert_eq!(s.get_unread_summary(), "4 unread".to_string());
    assert_eq!(s.total_count, 9);
}

#[test]
fn connect_without_configuration_is_refused() {
    let mut a = Account::new(account_config("a1", false, false));
    match a.begin_connect(Protocol::Imap) {
        Err(linksy::errors::ProtocolError::ConfigMissing) => {},
        _ => panic!("expected the missing configuration to be refused"),
    }
    assert_eq!(a.imap_status, ConnectionStatus::Disconnected);
    assert!(a.begin_connect(Protocol::Smtp).is_ok());
    assert_eq!(a.smtp_status, ConnectionStatus::Connecting);
}

#[test]
fn disconnect_twice_stays_disconnected_without_error() {
    let mut a = Account::new(account_config("a1", false, true));
    a.begin_connect(Protocol::Pop3).unwrap();
    a.complete_connect(Protocol::Pop3, Ok(()));
    assert_eq!(a.pop3_status, ConnectionStatus::Connected);
    a.disconnect(Protocol::Pop3);
    assert_eq!(a.pop3_status, ConnectionStatus::Disconnected);
    a.disconnect(Protocol::Pop3);
    assert_eq!(a.pop3_status, ConnectionStatus::Disconnected);
}

#[test]
fn connect_account_skips_unconfigured_retrieval_protocols() {
    let config = AppConfig {
        accounts: vec![account_config("a1", false, false)],
        settings: AppSettings { default_account: None, auto_check: true, check_interval: 15 },
    };
    let mut m = manager_with(&config);
    let any = m.connect_account(
        0,
        ConnectOutcomes { imap: None, pop3: None, smtp: Some(Ok(())) },
    );
    assert!(any);
    let a = m.get_account(0).unwrap();
    assert_eq!(a.imap_status, ConnectionStatus::Disconnected);
    assert_eq!(a.pop3_status, ConnectionStatus::Disconnected);
    assert_eq!(a.smtp_status, ConnectionStatus::Connected);
}

#[test]
fn connect_account_captures_failures_without_raising() {
    let config = AppConfig {
        accounts: vec![account_config("a1", true, true)],
        settings: AppSettings { default_account: None, auto_check: true, check_interval: 15 },
    };
    let mut m = manager_with(&config);
    let any = m.connect_account(
        0,
        ConnectOutcomes {
            imap: Some(Err("imap down".to_string())),
            pop3: Some(Ok(())),
            smtp: Some(Err("smtp down".to_string())),
        },
    );
    assert!(any);
    let a = m.get_account(0).unwrap();
    assert_eq!(a.imap_status, ConnectionStatus::Failed);
    assert_eq!(a.pop3_status, ConnectionStatus::Connected);
    assert_eq!(a.smtp_status, ConnectionStatus::Failed);
    assert_eq!(a.last_error, Some("smtp down".to_string()));
}

#[test]
fn connect_account_out_of_range_changes_nothing() {
    let config = AppConfig {
        accounts: vec![],
        settings: AppSettings { default_account: None, auto_check: true, check_interval: 15 },
    };
    let mut m = manager_with(&config);
    let any = m.connect_account(
        5,
        ConnectOutcomes { imap: None, pop3: None, smtp: Some(Ok(())) },
    );
    assert!(!any);
}

#[test]
fn retry_touches_only_failed_protocols() {
    let config = AppConfig {
        accounts: vec![account_config("a1", true, true)],
        settings: AppSettings { default_account: None, auto_check: true, check_interval: 15 },
    };
    let mut m = manager_with(&config);
    m.connect_account(
        0,
        ConnectOutcomes {
            imap: Some(Ok(())),
            pop3: Some(Err("pop down".to_string())),
            smtp: Some(Ok(())),
        },
    );
    {
        let a = m.get_account(0).unwrap();
        assert_eq!(a.imap_status, ConnectionStatus::Connected);
        assert_eq!(a.pop3_status, ConnectionStatus::Failed);
        assert_eq!(a.smtp_status, ConnectionStatus::Connected);
    }
    m.retry_connections(
        0,
        ConnectOutcomes { imap: None, pop3: Some(Ok(())), smtp: None },
    );
    let a = m.get_account(0).unwrap();
    assert_eq!(a.imap_status, ConnectionStatus::Connected);
    assert_eq!(a.pop3_status, ConnectionStatus::Connected);
    assert_eq!(a.smtp_status, ConnectionStatus::Connected);
}

#[test]
fn disconnect_all_clears_every_status() {
    let config = AppConfig {
        accounts: vec![account_config("a1", true, true), account_config("a2", false, true)],
        settings: AppSettings { default_account: None, auto_check: true, check_interval: 15 },
    };
    let mut m = manager_with(&config);
    m.connect_account(
        0,
        ConnectOutcomes { imap: Some(Ok(())), pop3: Some(Ok(())), smtp: Some(Ok(())) },
    );
    m.disconnect_all_clients();
    for i in 0..2 {
        let a = m.get_account(i).unwrap();
        assert_eq!(a.imap_status, ConnectionStatus::Disconnected);
        assert_eq!(a.pop3_status, ConnectionStatus::Disconnected);
        assert_eq!(a.smtp_status, ConnectionStatus::Disconnected);
    }
}

#[test]
fn account_crud_keeps_config_and_records_in_step() {
    let mut cm = ConfigManager::with_config("config.json", AppConfig {
        accounts: vec![],
        settings: AppSettings {
            default_account: Some("a2".to_string()),
            auto_check: true,
            check_interval: 15,
        },
    });
    let mut m = AccountManager::new();
    m.add_account(account_config("a1", true, false), &mut cm).unwrap();
    m.add_account(account_config("a2", false, true), &mut cm).unwrap();
    assert_eq!(m.account_count(), 2);
    assert_eq!(cm.get_config().accounts.len(), 2);
    match m.add_account(account_config("a2", false, false), &mut cm) {
        Err(ConfigError::DuplicateId) => {},
        _ => panic!("expected a duplicate id to be refused"),
    }
    m.update_account(0, account_config("a1", true, true), &mut cm).unwrap();
    assert!(m.get_account(0).unwrap().has_pop3());
    m.delete_account(1, &mut cm).unwrap();
    assert_eq!(m.account_count(), 1);
    assert_eq!(cm.get_config().accounts.len(), 1);
    assert_eq!(cm.get_config().settings.default_account, None);
}

#[test]
fn config_manager_removes_by_id_and_clears_default() {
    let mut cm = ConfigManager::with_config("config.json", AppConfig {
        accounts: vec![account_config("a1", false, false), account_config("a2", false, false)],
        settings: AppSettings {
            default_account: Some("a1".to_string()),
            auto_check: true,
            check_interval: 15,
        },
    });
    match cm.remove_account("missing") {
        Err(ConfigError::UnknownId) => {},
        _ => panic!("expected an unknown id to be refused"),
    }
    cm.remove_account("a1").unwrap();
    assert_eq!(cm.get_config().accounts.len(), 1);
    assert_eq!(cm.get_config().accounts[0].id, "a2".to_string());
    assert_eq!(cm.get_config().settings.default_account, None);
}

#[test]
fn default_configuration_is_empty_with_auto_check() {
    let cm = ConfigManager::new("config.json");
    assert_eq!(cm.get_config().accounts.len(), 0);
    assert!(cm.get_config().settings.auto_check);
    assert_eq!(cm.get_config().settings.check_interval, 15);
    assert!(cm.get_config().settings.default_account.is_none());
}

#[test]
fn line_protocol_count_lands_on_the_record_with_unread_equal_total() {
    let config = AppConfig {
        accounts: vec![account_config("a1", false, true)],
        settings: AppSettings { default_account: None, auto_check: true, check_interval: 15 },
    };
    let mut m = manager_with(&config);
    m.apply_line_protocol_count(0, 3);
    let a = m.get_account(0).unwrap();
    assert_eq!(a.total_count, 3);
    assert_eq!(a.unread_count, 3);
    assert_eq!(a.get_unread_summary(), "3 unread".to_string());
    m.apply_line_protocol_count(9, 7);
    assert_eq!(m.get_account(0).unwrap().total_count, 3);
}

#[test]
fn retrieval_counts_land_on_the_record() {
    let config = AppConfig {
        accounts: vec![account_config("a1", true, false)],
        settings: AppSettings { default_account: None, auto_check: true, check_interval: 15 },
    };
    let mut m = manager_with(&config);
    m.apply_counts(0, 12, 4);
    let a = m.get_account(0).unwrap();
    assert_eq!(a.total_count, 12);
    assert_eq!(a.unread_count, 4);
    assert_eq!(a.imap_status, ConnectionStatus::Disconnected);
}

#[test]
fn reported_folders_land_on_the_record() {
    let config = AppConfig {
        accounts: vec![account_config("a1", true, false)],
        settings: AppSettings { default_account: None, auto_check: true, check_interval: 15 },
    };
    let mut m = manager_with(&config);
    assert_eq!(m.get_account(0).unwrap().folders, vec!["INBOX".to_string()]);
    m.apply_folders(0, vec!["INBOX".to_string(), "Archive".to_string()]);
    assert_eq!(
        m.get_account(0).unwrap().folders,
        vec!["INBOX".to_string(), "Archive".to_string()]
    );
}

#[test]
fn health_plan_probes_reconnects_and_leaves() {
    let mut a = Account::new(account_config("a1", true, true));
    a.imap_status = ConnectionStatus::Connected;
    let plan = health_plan(&a);
    assert_eq!(plan.imap, TickAction::Probe);
    assert_eq!(plan.pop3, TickAction::Reconnect);
    assert_eq!(plan.smtp, TickAction::Reconnect);

    a.imap_status = ConnectionStatus::Failed;
    a.pop3_status = ConnectionStatus::Connected;
    a.smtp_status = ConnectionStatus::Connected;
    let plan = health_plan(&a);
    assert_eq!(plan.imap, TickAction::Leave);
    assert_eq!(plan.pop3, TickAction::Probe);
    assert_eq!(plan.smtp, TickAction::Leave);
    a.pop3_status = ConnectionStatus::Failed;
    assert_eq!(health_plan(&a).pop3, TickAction::Leave);

    let b = Account::new(account_config("b1", false, false));
    let plan = health_plan(&b);
    assert_eq!(plan.imap, TickAction::Leave);
    assert_eq!(plan.pop3, TickAction::Leave);
    assert_eq!(plan.smtp, TickAction::Reconnect);
}

#[test]
fn dead_probe_demotes_to_disconnected_not_failed() {
    let mut a = Account::new(account_config("a1", true, false));
    a.imap_status = ConnectionStatus::Connected;
    apply_probe_result(&mut a, Protocol::Imap, true);
    assert_eq!(a.imap_status, ConnectionStatus::Connected);
    apply_probe_result(&mut a, Protocol::Imap, false);
    assert_eq!(a.imap_status, ConnectionStatus::Disconnected);
}

#[test]
fn failed_reconnect_leaves_status_alone() {
    let mut a = Account::new(account_config("a1", false, true));
    apply_reconnect_result(&mut a, Protocol::Pop3, Err("still down".to_string()));
    assert_eq!(a.pop3_status, ConnectionStatus::Disconnected);
    apply_reconnect_result(&mut a, Protocol::Pop3, Ok(()));
    assert_eq!(a.pop3_status, ConnectionStatus::Connected);
    assert!(a.last_error.is_none());
}

#[test]
fn background_checker_start_is_idempotent() {
    let mut cm = ConnectionManager::new(30);
    assert!(!cm.is_running());
    assert!(cm.start_background_checker());
    assert!(cm.is_running());
    assert!(!cm.start_background_checker());
    assert!(cm.is_running());
    cm.stop_background_checker();
    assert!(!cm.is_running());
    cm.set_check_interval(60);
    assert!(cm.start_background_checker());
}

#[test]
fn extension_mapping_names_the_content_type() {
    assert_eq!(linksy::email::content_type_for_extension("pdf"), "application/pdf");
    assert_eq!(linksy::email::content_type_for_extension("jpeg"), "image/jpeg");
    assert_eq!(linksy::email::content_type_for_extension("htm"), "text/html");
    assert_eq!(linksy::email::content_type_for_extension("zip"), "application/zip");
    assert_eq!(linksy::email::content_type_for_extension("weird"), "application/octet-stream");
    assert_eq!(linksy::email::content_type_for_extension(""), "application/octet-stream");
}

#[test]
fn outbound_message_carries_the_account_identity() {
    let email = linksy::smtp::create_new_email(&account_config("a1", false, false), 77);
    assert_eq!(email.account_id, "a1".to_string());
    assert_eq!(email.from, "alice@example.org".to_string());
    assert_eq!(email.from_name, Some("Alice".to_string()));
    assert_eq!(email.date, 77);
    assert_eq!(email.folder, "INBOX".to_string());
    assert!(email.to.is_empty());
    assert!(!email.is_read);
}

#[test]
fn fetch_choice_prefers_the_connected_rich_protocol() {
    let mut a = Account::new(account_config("a1", true, true));
    assert_eq!(fetch_choice(&a), None);
    a.pop3_status = ConnectionStatus::Connected;
    assert_eq!(fetch_choice(&a), Some(Protocol::Pop3));
    a.imap_status = ConnectionStatus::Connected;
    assert_eq!(fetch_choice(&a), Some(Protocol::Imap));
}

#[test]
fn fetch_sequence_selects_the_tail() {
    assert_eq!(fetch_sequence(5, 3), "3:5".to_string());
    assert_eq!(fetch_sequence(2, 5), "1:*".to_string());
    assert_eq!(fetch_sequence(5, 5), "1:*".to_string());
}

#[test]
fn send_plan_matches_the_parts() {
    let mut e = linksy::email::Email::new(0);
    assert_eq!(send_plan(&e).structure, BodyStructure::Empty);
    assert!(!send_plan(&e).with_attachments);
    e.body_text = Some("hi".to_string());
    assert_eq!(send_plan(&e).structure, BodyStructure::TextOnly);
    e.body_html = Some("<p>hi</p>".to_string());
    assert_eq!(send_plan(&e).structure, BodyStructure::TextAndHtml);
    e.body_text = None;
    assert_eq!(send_plan(&e).structure, BodyStructure::HtmlOnly);
    e.attachments.push(linksy::email::Attachment {
        id: "1".to_string(),
        filename: "a.txt".to_string(),
        content_type: "text/plain".to_string(),
        size: 2,
        data: vec![104, 105],
    });
    assert!(send_plan(&e).with_attachments);
}

#[test]
fn form_navigation_skips_disabled_blocks() {
    let mut f = AccountFormState::new();
    assert_eq!(f.selected_field, 0);
    f.select_previous_field();
    assert_eq!(f.selected_field, 21);
    f.select_next_field();
    assert_eq!(f.selected_field, 0);
    f.selected_field = 3;
    f.select_next_field();
    assert_eq!(f.selected_field, 9);
    f.select_next_field();
    assert_eq!(f.selected_field, 15);
    f.selected_field = 15;
    f.select_previous_field();
    assert_eq!(f.selected_field, 9);
}

#[test]
fn form_toggle_enables_a_fresh_block() {
    let mut f = AccountFormState::new();
    f.selected_field = 2;
    f.set_selected_field_value("alice@example.org".to_string());
    f.selected_field = 3;
    f.toggle_boolean_field();
    assert!(f.imap_enabled);
    let imap = f.account.imap.as_ref().unwrap();
    assert_eq!(imap.port, 993);
    assert_eq!(imap.username, "alice@example.org".to_string());
    assert!(imap.use_ssl);
    f.selected_field = 8;
    f.toggle_boolean_field();
    assert!(!f.account.imap.as_ref().unwrap().use_ssl);
}

#[test]
fn form_sets_fields_and_parses_ports() {
    let mut f = AccountFormState::new();
    f.selected_field = 0;
    f.set_selected_field_value("a1".to_string());
    assert_eq!(f.account.id, "a1".to_string());
    f.selected_field = 16;
    f.set_selected_field_value("2525".to_string());
    assert_eq!(f.account.smtp.port, 2525);
    f.set_selected_field_value("not a port".to_string());
    assert_eq!(f.account.smtp.port, 2525);
    f.selected_field = 19;
    f.set_selected_field_value("no".to_string());
    assert!(!f.account.smtp.use_ssl);
    f.set_selected_field_value("TrUe".to_string());
    assert!(f.account.smtp.use_ssl);
    f.set_selected_field_value("1".to_string());
    assert!(f.account.smtp.use_ssl);
}

#[test]
fn form_editing_applies_the_buffer() {
    let mut f = AccountFormState::new();
    f.selected_field = 1;
    f.start_editing();
    assert!(f.editing);
    assert_eq!(f.edit_buffer, "".to_string());
    f.edit_buffer = "Alice".to_string();
    f.stop_editing();
    assert!(!f.editing);
    assert_eq!(f.account.name, "Alice".to_string());
    assert_eq!(f.edit_buffer, "".to_string());
    f.start_editing();
    f.edit_buffer = "Bob".to_string();
    f.cancel_editing();
    assert_eq!(f.account.name, "Alice".to_string());
}

#[test]
fn form_validation_names_the_missing_fields() {
    let mut f = AccountFormState::new();
    assert!(!f.validate());
    assert!(f.has_validation_error(0));
    assert!(f.has_validation_error(1));
    assert!(f.has_validation_error(2));
    assert!(f.has_validation_error(15));
    assert_eq!(
        f.get_validation_error(0).unwrap(),
        &"Account ID is required".to_string()
    );
    f.selected_field = 2;
    f.set_selected_field_value("no at sign".to_string());
    f.validate();
    assert_eq!(
        f.get_validation_error(2).unwrap(),
        &"Invalid email format".to_string()
    );
}

#[test]
fn form_filled_in_validates_and_finalizes() {
    let mut f = AccountFormState::new();
    f.selected_field = 0;
    f.set_selected_field_value("a1".to_string());
    f.selected_field = 1;
    f.set_selected_field_value("Alice".to_string());
    f.selected_field = 2;
    f.set_selected_field_value("alice@example.org".to_string());
    f.selected_field = 9;
    f.toggle_boolean_field();
    f.selected_field = 10;
    f.set_selected_field_value("pop.example.org".to_string());
    f.selected_field = 13;
    f.set_selected_field_value("sesame".to_string());
    f.selected_field = 15;
    f.set_selected_field_value("smtp.example.org".to_string());
    f.selected_field = 17;
    f.set_selected_field_value("alice".to_string());
    f.selected_field = 18;
    f.set_selected_field_value("sesame".to_string());
    assert!(f.validate());
    let account = f.finalize_account();
    assert!(account.imap.is_none());
    let pop3 = account.pop3.as_ref().unwrap();
    assert_eq!(pop3.host, "pop.example.org".to_string());
    assert_eq!(pop3.port, 995);
    assert_eq!(pop3.username, "alice@example.org".to_string());
}

#[test]
fn form_field_names_follow_the_layout() {
    let mut f = AccountFormState::new();
    assert_eq!(f.get_selected_field_name(), "account_id");
    f.selected_field = 11;
    assert_eq!(f.get_selected_field_name(), "pop3_port");
    assert_eq!(f.get_selected_field_value(), "995".to_string());
    f.selected_field = 21;
    assert_eq!(f.get_selected_field_name(), "cancel_button");
    assert_eq!(f.get_selected_field_value(), "Cancel".to_string());
}

#[test]
fn form_from_account_enables_configured_blocks() {
    let f = AccountFormState::from_account(account_config("a1", true, false));
    assert!(f.imap_enabled);
    assert!(!f.pop3_enabled);
    assert!(!f.is_new_account);
}
