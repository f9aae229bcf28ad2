//! Tests of the message model, the byte codec, the cache, the
//! synchronization engine, and the line-protocol session end to end.

use linksy::account::Protocol;
use linksy::account_manager::{AccountManager, ConnectOutcomes};
use linksy::config::{AppConfig, AppSettings, ConfigManager};
use linksy::codec::{decode_email, encode_email};
use linksy::config::{EmailAccount, ServerConfig};
use linksy::email::{sort_emails_by_date, Attachment, Email};
use linksy::email_manager::{fetch_choice, EmailManager, FetchOutcome};
use linksy::pop3::{fetch_plan, parse_stat_response, read_multiline_response, ConnectAction, Pop3Handshake};
use linksy::storage::EmailStorage;

fn message(id: &str, account: &str, folder: &str, date: u64) -> Email {
    let mut e = Email::new(date);
    e.id = id.to_string();
    e.subject = format!("about {}", id);
    e.from = "bob@example.org".to_string();
    e.from_name = Some("Bob".to_string());
    e.to = vec!["alice@example.org".to_string()];
    e.cc = vec!["carol@example.org".to_string()];
    e.body_text = Some("body text with ünïcode".to_string());
    e.body_html = Some("<p>hi</p>".to_string());
    e.headers = vec![("X-Topic".to_string(), "tests".to_string())];
    e.account_id = account.to_string();
    e.folder = folder.to_string();
    e
}

fn assert_same_email(a: &Email, b: &Email) {
    assert_eq!(a.id, b.id);
    assert_eq!(a.subject, b.subject);
    assert_eq!(a.from, b.from);
    assert_eq!(a.from_name, b.from_name);
    assert_eq!(a.to, b.to);
    assert_eq!(a.cc, b.cc);
    assert_eq!(a.bcc, b.bcc);
    assert_eq!(a.body_text, b.body_text);
    assert_eq!(a.body_html, b.body_html);
    assert_eq!(a.date, b.date);
    assert_eq!(a.attachments.len(), b.attachments.len());
    for (x, y) in a.attachments.iter().zip(b.attachments.iter()) {
        assert_eq!(x.id, y.id);
        assert_eq!(x.filename, y.filename);
        assert_eq!(x.content_type, y.content_type);
        assert_eq!(x.size, y.size);
        assert_eq!(x.data, y.data);
    }
    assert_eq!(a.is_read, b.is_read);
    assert_eq!(a.is_flagged, b.is_flagged);
    assert_eq!(a.headers, b.headers);
    assert_eq!(a.account_id, b.account_id);
    assert_eq!(a.folder, b.folder);
}

#[test]
fn codec_round_trips_a_full_message() {
    let mut e = message("m1", "a1", "INBOX", 42);
    e.is_read = true;
    e.attachments.push(Attachment {
        id: "att1".to_string(),
        filename: "notes.txt".to_string(),
        content_type: "text/plain".to_string(),
        size: 3,
        data: vec![1, 2, 3],
    });
    let bytes = encode_email(&e);
    let back = decode_email(&bytes).expect("an encoding decodes");
    assert_same_email(&e, &back);
}

#[test]
fn codec_rejects_garbage() {
    assert!(decode_email(b"not a message").is_none());
    assert!(decode_email(b"").is_none());
    let mut bytes = encode_email(&message("m1", "a1", "INBOX", 1));
    bytes.push(0);
    assert!(decode_email(&bytes).is_none());
}

#[test]
fn store_then_get_returns_the_message_unchanged() {
    let mut storage = EmailStorage::new_temporary().expect("scratch store");
    let e = message("m1", "a1", "INBOX", 42);
    storage.store_email(&e).expect("store accepted");
    let back = storage.get_email("a1", "INBOX", "m1").expect("lookup works");
    assert_same_email(&e, &back.expect("the message is cached"));
    assert!(storage.get_email("a1", "INBOX", "m2").unwrap().is_none());
    assert!(storage.get_email("a2", "INBOX", "m1").unwrap().is_none());
}

#[test]
fn restore_overwrites_in_place() {
    let mut storage = EmailStorage::new_temporary().expect("scratch store");
    let mut e = message("m1", "a1", "INBOX", 42);
    storage.store_email(&e).expect("store accepted");
    e.is_flagged = true;
    storage.update_email(&e).expect("store accepted");
    let back = storage.get_email("a1", "INBOX", "m1").unwrap().unwrap();
    assert!(back.is_flagged);
    let all = storage.get_emails("a1", "INBOX").unwrap();
    assert_eq!(all.len(), 1);
}

#[test]
fn get_emails_returns_the_folder_newest_first() {
    let mut storage = EmailStorage::new_temporary().expect("scratch store");
    storage.store_email(&message("m1", "a1", "INBOX", 10)).unwrap();
    storage.store_email(&message("m2", "a1", "INBOX", 30)).unwrap();
    storage.store_email(&message("m3", "a1", "INBOX", 20)).unwrap();
    storage.store_email(&message("m4", "a1", "Archive", 99)).unwrap();
    storage.store_email(&message("m5", "a2", "INBOX", 99)).unwrap();
    let list = storage.get_emails("a1", "INBOX").unwrap();
    assert_eq!(list.len(), 3);
    assert_eq!(list[0].id, "m2".to_string());
    assert_eq!(list[1].id, "m3".to_string());
    assert_eq!(list[2].id, "m1".to_string());
}

#[test]
fn delete_email_unmaps_the_key() {
    let mut storage = EmailStorage::new_temporary().expect("scratch store");
    storage.store_email(&message("m1", "a1", "INBOX", 10)).unwrap();
    storage.delete_email("a1", "INBOX", "m1").unwrap();
    assert!(storage.get_email("a1", "INBOX", "m1").unwrap().is_none());
    storage.delete_email("a1", "INBOX", "m1").unwrap();
}

#[test]
fn account_sweep_removes_only_that_account() {
    let mut storage = EmailStorage::new_temporary().expect("scratch store");
    storage.store_email(&message("m1", "a1", "INBOX", 10)).unwrap();
    storage.store_email(&message("m2", "a1", "Archive", 20)).unwrap();
    storage.store_email(&message("m3", "a2", "INBOX", 30)).unwrap();
    storage.delete_account("a1").unwrap();
    assert!(storage.get_email("a1", "INBOX", "m1").unwrap().is_none());
    assert!(storage.get_email("a1", "Archive", "m2").unwrap().is_none());
    assert!(storage.get_email("a2", "INBOX", "m3").unwrap().is_some());
}

#[test]
fn sort_is_stable_on_equal_timestamps() {
    let a = message("a", "x", "INBOX", 5);
    let b = message("b", "x", "INBOX", 7);
    let c = message("c", "x", "INBOX", 7);
    let d = message("d", "x", "INBOX", 1);
    let sorted = sort_emails_by_date(vec![a, b, c, d]);
    let ids: Vec<String> = sorted.iter().map(|e| e.id.clone()).collect();
    assert_eq!(
        ids,
        vec!["b".to_string(), "c".to_string(), "a".to_string(), "d".to_string()]
    );
}

#[test]
fn load_replaces_the_baseline_with_a_successful_fetch() {
    let storage = EmailStorage::new_temporary().expect("scratch store");
    let mut engine = EmailManager::new(storage);
    let stale = message("old", "a1", "INBOX", 1);
    engine.update_email(&stale).unwrap();
    let fetched = vec![message("m2", "a1", "INBOX", 30), message("m1", "a1", "INBOX", 10)];
    let result = engine.load_emails("a1", "INBOX", FetchOutcome::Fetched(fetched));
    assert!(result.cache_ok);
    assert_eq!(result.emails.len(), 2);
    assert_eq!(result.emails[0].id, "m2".to_string());
    let cached = engine.get_email("a1", "INBOX", "m2").unwrap().unwrap();
    assert_same_email(&result.emails[0], &cached);
}

#[test]
fn load_serves_the_cache_when_no_connection_is_usable() {
    let storage = EmailStorage::new_temporary().expect("scratch store");
    let mut engine = EmailManager::new(storage);
    engine.update_email(&message("m1", "a1", "INBOX", 10)).unwrap();
    engine.update_email(&message("m2", "a1", "INBOX", 30)).unwrap();
    let result = engine.load_emails("a1", "INBOX", FetchOutcome::NoConnection);
    assert!(result.cache_ok);
    assert_eq!(result.emails.len(), 2);
    assert_eq!(result.emails[0].id, "m2".to_string());
    let result = engine.load_emails(
        "a1",
        "INBOX",
        FetchOutcome::Failed("timed out".to_string()),
    );
    assert_eq!(result.emails.len(), 2);
}

#[test]
fn failed_remote_mark_leaves_the_cache_unchanged() {
    let storage = EmailStorage::new_temporary().expect("scratch store");
    let mut engine = EmailManager::new(storage);
    let e = message("m1", "a1", "INBOX", 10);
    engine.update_email(&e).unwrap();
    match engine.mark_as_read(Err("connection reset".to_string()), &e) {
        Err(linksy::errors::ProtocolError::Rejected(text)) => {
            assert_eq!(text, b"connection reset".to_vec())
        },
        _ => panic!("expected the remote failure to abort the operation"),
    }
    let cached = engine.get_email("a1", "INBOX", "m1").unwrap().unwrap();
    assert!(!cached.is_read);
}

#[test]
fn successful_remote_mark_updates_the_cached_copy() {
    let storage = EmailStorage::new_temporary().expect("scratch store");
    let mut engine = EmailManager::new(storage);
    let e = message("m1", "a1", "INBOX", 10);
    engine.update_email(&e).unwrap();
    engine.mark_as_read(Ok(()), &e).unwrap();
    assert!(engine.get_email("a1", "INBOX", "m1").unwrap().unwrap().is_read);
    engine.mark_as_unread(Ok(()), &e).unwrap();
    assert!(!engine.get_email("a1", "INBOX", "m1").unwrap().unwrap().is_read);
    engine.flag_email(Ok(()), &e).unwrap();
    assert!(engine.get_email("a1", "INBOX", "m1").unwrap().unwrap().is_flagged);
    engine.unflag_email(Ok(()), &e).unwrap();
    assert!(!engine.get_email("a1", "INBOX", "m1").unwrap().unwrap().is_flagged);
    engine.delete_email(Ok(()), &e).unwrap();
    assert!(engine.get_email("a1", "INBOX", "m1").unwrap().is_none());
}

#[test]
fn attachment_size_reads_naturally() {
    let mut att = Attachment {
        id: "att1".to_string(),
        filename: "notes.txt".to_string(),
        content_type: "text/plain".to_string(),
        size: 512,
        data: Vec::new(),
    };
    assert_eq!(att.get_size_string(), "512 B".to_string());
    att.size = 2048;
    assert_eq!(att.get_size_string(), "2.0 KB".to_string());
    att.size = 1536;
    assert_eq!(att.get_size_string(), "1.5 KB".to_string());
    att.size = 5 * 1048576;
    assert_eq!(att.get_size_string(), "5.0 MB".to_string());
    att.size = 3 * 1073741824;
    assert_eq!(att.get_size_string(), "3.0 GB".to_string());
}

#[test]
fn summary_marks_flags_and_unread() {
    let mut e = message("m1", "a1", "INBOX", 10);
    assert_eq!(
        e.get_summary(),
        "📩 Bob <bob@example.org> - about m1".to_string()
    );
    e.is_read = true;
    e.is_flagged = true;
    assert_eq!(
        e.get_summary(),
        "🚩 Bob <bob@example.org> - about m1".to_string()
    );
    e.from_name = None;
    assert_eq!(e.get_summary(), "🚩 bob@example.org - about m1".to_string());
}

#[test]
fn line_protocol_session_end_to_end() {
    // An account with only the line protocol configured.
    let config = EmailAccount {
        id: "a1".to_string(),
        name: "Alice".to_string(),
        email: "alice@example.org".to_string(),
        imap: None,
        pop3: Some(ServerConfig {
            host: "pop.example.org".to_string(),
            port: 995,
            username: "alice".to_string(),
            password: "sesame".to_string(),
            use_ssl: true,
        }),
        smtp: ServerConfig {
            host: "smtp.example.org".to_string(),
            port: 587,
            username: "alice".to_string(),
            password: "sesame".to_string(),
            use_ssl: true,
        },
    };
    let cm = ConfigManager::with_config("config.json", AppConfig {
        accounts: vec![config],
        settings: AppSettings { default_account: None, auto_check: true, check_interval: 15 },
    });
    let mut accounts = AccountManager::new();
    accounts.load_accounts(&cm);

    // The connect handshake against the server's replies.
    let mut hs = Pop3Handshake::new();
    assert_eq!(hs.step(b"+OK ready").unwrap(), ConnectAction::SendUser);
    assert_eq!(hs.step(b"+OK").unwrap(), ConnectAction::SendPass);
    assert_eq!(hs.step(b"+OK logged in").unwrap(), ConnectAction::SendStat);
    assert_eq!(hs.step(b"+OK 3 450").unwrap(), ConnectAction::Done);
    accounts.connect_account(
        0,
        ConnectOutcomes { imap: None, pop3: Some(Ok(())), smtp: Some(Ok(())) },
    );
    let count = hs.message_count.expect("the status reply carries the count");
    assert_eq!(count, 3);

    // The reported count lands on the record; this protocol keeps no read
    // state on the server, so unread equals total.
    accounts.apply_line_protocol_count(0, count as usize);
    {
        let account = accounts.get_account(0).unwrap();
        assert_eq!(account.total_count, 3);
        assert_eq!(account.unread_count, 3);
        assert_eq!(fetch_choice(account), Some(Protocol::Pop3));
    }

    // A fetch with limit 2 retrieves exactly messages 2 and 3.
    let (first, last) = fetch_plan(count, 2);
    assert_eq!((first, last), (2, 3));

    // Each retrieval's multi-line response frames the raw message; the
    // parsing collaborator then yields the records, here built directly.
    let (lines, _) = read_multiline_response(b"raw message two\r\n.\r\n").unwrap();
    assert_eq!(lines, vec![b"raw message two".to_vec()]);
    let fetched = vec![message("2", "a1", "INBOX", 200), message("3", "a1", "INBOX", 300)];

    let storage = EmailStorage::new_temporary().expect("scratch store");
    let mut engine = EmailManager::new(storage);
    let result = engine.load_emails(
        "a1",
        "INBOX",
        FetchOutcome::Fetched(sort_emails_by_date(fetched)),
    );
    assert!(result.cache_ok);
    assert_eq!(result.emails.len(), 2);
    assert_eq!(result.emails[0].id, "3".to_string());
    assert_eq!(result.emails[1].id, "2".to_string());
    assert!(engine.get_email("a1", "INBOX", "2").unwrap().is_some());
    assert!(engine.get_email("a1", "INBOX", "3").unwrap().is_some());

    // A STAT reply with a count the record reflects.
    assert_eq!(parse_stat_response(b"+OK 3 450"), Some(3));
}
