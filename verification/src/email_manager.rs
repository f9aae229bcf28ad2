//! The synchronization engine: merges the local cache with live fetches and
//! serves mutation requests against cache and connection together.
//!
//! Performing the live fetch or the remote mutation is transport work; its
//! outcome is handed in, and this module decides — and proves — what the
//! cache and the result hold afterwards. The rule for mutations: the remote
//! step first, and only on its success the cached copy; a remote failure
//! leaves the cache untouched.

use crate::account::{Account, ConnectionStatus, Protocol};
use crate::codec::{dec_email, email_fits, enc_email, lemma_email_round_trip};
use crate::email::{Email, EmailView};
use crate::errors::{ProtocolError, StorageError};
use crate::storage::{list_complete, list_sound, lists_folder, spec_email_key, spec_folder_prefix, EmailStorage};
use vstd::prelude::*;
use vstd::string::{StrSliceExecFns, StringExecFns};

verus! {

/// The outcome of the live-fetch step of a load: no usable connection, a
/// fetched message list, or a failed fetch with its error text.
pub enum FetchOutcome {
    NoConnection,
    Fetched(Vec<Email>),
    Failed(String),
}

/// What a load returned: the messages to display, and whether every cache
/// step was accepted by the store (a load degrades rather than fails).
pub struct LoadResult {
    pub emails: Vec<Email>,
    pub cache_ok: bool,
}

/// Which retrieval protocol a live fetch should use: the rich protocol when
/// it is configured and reports connected, else the line protocol under the
/// same condition, else none.
pub open spec fn spec_fetch_choice(a: Account) -> Option<Protocol> {
    if a.config.imap is Some && a.imap_status == ConnectionStatus::Connected {
        Some(Protocol::Imap)
    } else if a.config.pop3 is Some && a.pop3_status == ConnectionStatus::Connected {
        Some(Protocol::Pop3)
    } else {
        None
    }
}

/// Decides which retrieval protocol a live fetch uses, from the last known
/// statuses.
pub fn fetch_choice(account: &Account) -> (r: Option<Protocol>)
    ensures
        r == spec_fetch_choice(*account),
{
    if account.has_imap() && matches!(account.imap_status, ConnectionStatus::Connected) {
        Some(Protocol::Imap)
    } else if account.has_pop3() && matches!(account.pop3_status, ConnectionStatus::Connected) {
        Some(Protocol::Pop3)
    } else {
        None
    }
}

/// The key under which a message is cached.
pub open spec fn spec_key_of(v: EmailView) -> Seq<u8> {
    spec_email_key(v.account_id, v.folder, v.id)
}

/// Whether `i` is the last index of `l` whose message uses its key: only the
/// last write to a key survives an upsert sequence.
pub open spec fn last_writer(l: Seq<Email>, i: int) -> bool {
    forall|j: int| i < j < l.len() ==> spec_key_of((#[trigger] l[j])@) != spec_key_of(l[i]@)
}

/// The cache after a message list is upserted in order: each message's
/// encoding lands under its key, later writes to the same key overwriting
/// earlier ones.
pub open spec fn spec_upserts(contents: Map<Seq<u8>, Seq<u8>>, msgs: Seq<Email>) -> Map<
    Seq<u8>,
    Seq<u8>,
>
    decreases msgs.len(),
{
    if msgs.len() == 0 {
        contents
    } else {
        spec_upserts(contents, msgs.drop_last()).insert(
            spec_key_of(msgs.last()@),
            enc_email(msgs.last()@),
        )
    }
}

/// In an upserted cache, the last writer to a key is the one found under it.
proof fn lemma_upserts_last_writer(c: Map<Seq<u8>, Seq<u8>>, l: Seq<Email>, i: int)
    requires
        0 <= i < l.len(),
        last_writer(l, i),
    ensures
        spec_upserts(c, l).contains_key(spec_key_of(l[i]@)),
        spec_upserts(c, l)[spec_key_of(l[i]@)] == enc_email(l[i]@),
    decreases l.len(),
{
    if i == l.len() - 1 {
        assert(l.last() == l[i]);
    } else {
        assert(spec_key_of((l[l.len() - 1])@) != spec_key_of(l[i]@));
        let l2 = l.drop_last();
        assert(l2[i] == l[i]);
        assert forall|j: int|
            i < j < l2.len() implies spec_key_of((#[trigger] l2[j])@) != spec_key_of(
            l2[i]@,
        ) by {
            assert(l2[j] == l[j]);
        }
        lemma_upserts_last_writer(c, l2, i);
        assert(l.last() == l[l.len() - 1]);
    }
}

/// A cache equal to some prefix-upsert of a list witnesses the bounded
/// prefix-upsert form.
proof fn lemma_take_prefix_witness(
    c0: Map<Seq<u8>, Seq<u8>>,
    l: Seq<Email>,
    cur: Map<Seq<u8>, Seq<u8>>,
    i: int,
)
    requires
        0 <= i < l.len(),
        cur == spec_upserts(c0, l.take(i)) || cur == spec_upserts(c0, l.take(i + 1)),
    ensures
        exists|m: int|
            #![trigger spec_upserts(c0, l.take(m))]
            0 <= m <= l.len() && cur == spec_upserts(c0, l.take(m)),
{
    if cur == spec_upserts(c0, l.take(i)) {
        assert(0 <= i <= l.len() && cur == spec_upserts(c0, l.take(i)));
    } else {
        assert(0 <= i + 1 <= l.len() && cur == spec_upserts(c0, l.take(i + 1)));
    }
}

/// After a successful live fetch whose cache writes were all accepted, every
/// fetched message whose key no later fetched message overwrote is
/// retrievable unchanged: the cache decodes its key back to exactly that
/// message.
pub proof fn lemma_fetched_retrievable(contents: Map<Seq<u8>, Seq<u8>>, e: Email)
    requires
        contents.contains_key(spec_key_of(e@)),
        contents[spec_key_of(e@)] == enc_email(e@),
        email_fits(e@),
    ensures
        dec_email(contents[spec_key_of(e@)]) == Some(e@),
{
    lemma_email_round_trip(e@);
}

/// Manages message loads and mutations against the cache and the live
/// connections.
pub struct EmailManager {
    storage: EmailStorage,
}

impl EmailManager {
    /// The cached contents the engine works over.
    pub closed spec fn contents(self) -> Map<Seq<u8>, Seq<u8>> {
        self.storage.contents()
    }

    /// An engine over the given cache.
    pub fn new(storage: EmailStorage) -> (r: EmailManager)
        ensures
            r.contents() == storage.contents(),
    {
        EmailManager { storage }
    }

    /// Loads the messages of `(account, folder)`: the cached messages are the
    /// baseline; a successful live fetch replaces them and is upserted into
    /// the cache, message by message, in order; a failed or impossible fetch
    /// leaves the baseline standing. A cache read failure degrades to an
    /// empty baseline, and a cache write failure leaves the remaining
    /// messages unwritten; both are reported through `cache_ok`, never as an
    /// error.
    #[verifier::rlimit(100)]
    #[verifier::spinoff_prover]
    pub fn load_emails(&mut self, account_id: &str, folder: &str, fetched: FetchOutcome) -> (r:
        LoadResult)
        ensures
            fetched matches FetchOutcome::Fetched(l) ==> r.emails == l,
            fetched matches FetchOutcome::Fetched(l) ==> (r.cache_ok ==> (forall|i: int|
                0 <= i < l@.len() && last_writer(l@, i) ==> {
                    &&& final(self).contents().contains_key(spec_key_of((#[trigger] l@[i])@))
                    &&& final(self).contents()[spec_key_of(l@[i]@)] == enc_email(l@[i]@)
                    &&& email_fits(l@[i]@)
                })),
            fetched matches FetchOutcome::Fetched(l) ==> (r.cache_ok ==> final(self).contents()
                == spec_upserts(old(self).contents(), l@)),
            fetched matches FetchOutcome::Fetched(l) ==> (!r.cache_ok ==> exists|m: int|
                #![trigger spec_upserts(old(self).contents(), l@.take(m))]
                0 <= m <= l@.len() && final(self).contents() == spec_upserts(
                    old(self).contents(),
                    l@.take(m),
                )),
            !(fetched matches FetchOutcome::Fetched(_)) ==> final(self).contents() == old(self).contents(),
            !(fetched matches FetchOutcome::Fetched(_)) ==> (if r.cache_ok {
                &&& crate::email::sorted_by_date_desc(r.emails@)
                &&& list_sound(
                    final(self).contents(),
                    spec_folder_prefix(account_id@, folder@),
                    r.emails@,
                )
                &&& list_complete(
                    final(self).contents(),
                    spec_folder_prefix(account_id@, folder@),
                    r.emails@,
                )
                &&& lists_folder(
                    final(self).contents(),
                    spec_folder_prefix(account_id@, folder@),
                    r.emails@,
                )
            } else {
                r.emails@.len() == 0
            }),
    {
        match fetched {
            FetchOutcome::Fetched(list) => {
                let ghost c0 = self.contents();
                let n = list.len();
                let mut i: usize = 0;
                proof {
                    assert(list@.take(0) =~= Seq::<Email>::empty());
                }
                while i < n
                    invariant
                        i <= n,
                        n == list@.len(),
                        fetched == FetchOutcome::Fetched(list),
                        self.contents() == spec_upserts(c0, list@.take(i as int)),
                        c0 == old(self).contents(),
                        forall|j: int| 0 <= j < i ==> email_fits((#[trigger] list@[j])@),
                    decreases n - i,
                {
                    proof {
                        assert(list@.take(i as int + 1).drop_last() =~= list@.take(i as int));
                        assert(list@.take(i as int + 1).last() == list@[i as int]);
                    }
                    match self.storage.store_email(&list[i]) {
                        Ok(()) => {},
                        Err(_) => {
                            proof {
                                lemma_take_prefix_witness(
                                    old(self).contents(),
                                    list@,
                                    self.contents(),
                                    i as int,
                                );
                                let m0 = choose|m: int|
                                    #![trigger spec_upserts(old(self).contents(), list@.take(m))]
                                    0 <= m <= list@.len() && self.contents() == spec_upserts(
                                        old(self).contents(),
                                        list@.take(m),
                                    );
                                assert(fetched->Fetched_0 == list);
                                assert(0 <= m0 <= (fetched->Fetched_0)@.len() && self.contents()
                                    == spec_upserts(
                                    old(self).contents(),
                                    (fetched->Fetched_0)@.take(m0),
                                ));
                            }
                            return LoadResult { emails: list, cache_ok: false };
                        },
                    }
                    i = i + 1;
                }
                proof {
                    assert(list@.take(n as int) =~= list@);
                    assert forall|j: int| 0 <= j < list@.len() && last_writer(list@, j) implies {
                        &&& self.contents().contains_key(spec_key_of((#[trigger] list@[j])@))
                        &&& self.contents()[spec_key_of(list@[j]@)] == enc_email(list@[j]@)
                        &&& email_fits(list@[j]@)
                    } by {
                        lemma_upserts_last_writer(c0, list@, j);
                    }
                }
                LoadResult { emails: list, cache_ok: true }
            },
            FetchOutcome::NoConnection | FetchOutcome::Failed(_) => {
                match self.storage.get_emails(account_id, folder) {
                    Ok(emails) => LoadResult { emails, cache_ok: true },
                    Err(_) => LoadResult { emails: Vec::new(), cache_ok: false },
                }
            },
        }
    }

    /// Marks a message read: the remote step's outcome decides. Remote
    /// failure aborts the whole operation with the cache untouched; remote
    /// success updates the cached copy's read flag in place.
    pub fn mark_as_read(&mut self, remote: Result<(), String>, email: &Email) -> (r: Result<
        (),
        ProtocolError,
    >)
        ensures
            remote is Err ==> final(self).contents() == old(self).contents() && r is Err,
            remote is Ok && r is Ok ==> final(self).contents() == old(self).contents().insert(
                spec_key_of(email@),
                enc_email(EmailView { is_read: true, ..email@ }),
            ),
            remote is Ok && r is Err ==> final(self).contents() == old(self).contents() || final(self).contents() == old(self).contents().insert(
                spec_key_of(email@),
                enc_email(EmailView { is_read: true, ..email@ }),
            ),
    {
        self.apply_flag_mutation(remote, email, true, true)
    }

    /// Marks a message unread, under the same mutation discipline.
    pub fn mark_as_unread(&mut self, remote: Result<(), String>, email: &Email) -> (r: Result<
        (),
        ProtocolError,
    >)
        ensures
            remote is Err ==> final(self).contents() == old(self).contents() && r is Err,
            remote is Ok && r is Ok ==> final(self).contents() == old(self).contents().insert(
                spec_key_of(email@),
                enc_email(EmailView { is_read: false, ..email@ }),
            ),
            remote is Ok && r is Err ==> final(self).contents() == old(self).contents() || final(self).contents() == old(self).contents().insert(
                spec_key_of(email@),
                enc_email(EmailView { is_read: false, ..email@ }),
            ),
    {
        self.apply_flag_mutation(remote, email, true, false)
    }

    /// Flags a message, under the same mutation discipline.
    pub fn flag_email(&mut self, remote: Result<(), String>, email: &Email) -> (r: Result<
        (),
        ProtocolError,
    >)
        ensures
            remote is Err ==> final(self).contents() == old(self).contents() && r is Err,
            remote is Ok && r is Ok ==> final(self).contents() == old(self).contents().insert(
                spec_key_of(email@),
                enc_email(EmailView { is_flagged: true, ..email@ }),
            ),
            remote is Ok && r is Err ==> final(self).contents() == old(self).contents() || final(self).contents() == old(self).contents().insert(
                spec_key_of(email@),
                enc_email(EmailView { is_flagged: true, ..email@ }),
            ),
    {
        self.apply_flag_mutation(remote, email, false, true)
    }

    /// Unflags a message, under the same mutation discipline.
    pub fn unflag_email(&mut self, remote: Result<(), String>, email: &Email) -> (r: Result<
        (),
        ProtocolError,
    >)
        ensures
            remote is Err ==> final(self).contents() == old(self).contents() && r is Err,
            remote is Ok && r is Ok ==> final(self).contents() == old(self).contents().insert(
                spec_key_of(email@),
                enc_email(EmailView { is_flagged: false, ..email@ }),
            ),
            remote is Ok && r is Err ==> final(self).contents() == old(self).contents() || final(self).contents() == old(self).contents().insert(
                spec_key_of(email@),
                enc_email(EmailView { is_flagged: false, ..email@ }),
            ),
    {
        self.apply_flag_mutation(remote, email, false, false)
    }

    fn apply_flag_mutation(
        &mut self,
        remote: Result<(), String>,
        email: &Email,
        read_flag: bool,
        value: bool,
    ) -> (r: Result<(), ProtocolError>)
        ensures
            remote is Err ==> final(self).contents() == old(self).contents() && r is Err,
            remote is Ok && r is Ok && read_flag ==> final(self).contents() == old(self).contents().insert(
                spec_key_of(email@),
                enc_email(EmailView { is_read: value, ..email@ }),
            ),
            remote is Ok && r is Ok && !read_flag ==> final(self).contents() == old(self).contents().insert(
                spec_key_of(email@),
                enc_email(EmailView { is_flagged: value, ..email@ }),
            ),
            remote is Ok && r is Err && read_flag ==> final(self).contents() == old(self).contents() || final(self).contents() == old(self).contents().insert(
                spec_key_of(email@),
                enc_email(EmailView { is_read: value, ..email@ }),
            ),
            remote is Ok && r is Err && !read_flag ==> final(self).contents() == old(self).contents() || final(self).contents() == old(self).contents().insert(
                spec_key_of(email@),
                enc_email(EmailView { is_flagged: value, ..email@ }),
            ),
    {
        match remote {
            Err(e) => Err(ProtocolError::Rejected(e.as_str().as_bytes_vec())),
            Ok(()) => {
                let mut updated = email.duplicate();
                if read_flag {
                    updated.is_read = value;
                    proof {
                        assert(updated@ =~= EmailView { is_read: value, ..email@ });
                    }
                } else {
                    updated.is_flagged = value;
                    proof {
                        assert(updated@ =~= EmailView { is_flagged: value, ..email@ });
                    }
                }
                match self.storage.update_email(&updated) {
                    Ok(()) => Ok(()),
                    Err(_) => Err(ProtocolError::Io("cache update failed".to_owned())),
                }
            },
        }
    }

    /// Deletes a message: remote failure aborts with the cache untouched;
    /// remote success removes the cached copy.
    pub fn delete_email(&mut self, remote: Result<(), String>, email: &Email) -> (r: Result<
        (),
        ProtocolError,
    >)
        ensures
            remote is Err ==> final(self).contents() == old(self).contents() && r is Err,
            remote is Ok && r is Ok ==> final(self).contents() == old(self).contents().remove(
                spec_key_of(email@),
            ),
            remote is Ok && r is Err ==> final(self).contents() == old(self).contents() || final(self).contents() == old(self).contents().remove(spec_key_of(email@)),
    {
        match remote {
            Err(e) => Err(ProtocolError::Rejected(e.as_str().as_bytes_vec())),
            Ok(()) => {
                match self.storage.delete_email(
                    email.account_id.as_str(),
                    email.folder.as_str(),
                    email.id.as_str(),
                ) {
                    Ok(()) => Ok(()),
                    Err(_) => Err(ProtocolError::Io("cache delete failed".to_owned())),
                }
            },
        }
    }

    /// Fetches the cached copy of a message by its key.
    pub fn get_email(&self, account_id: &str, folder: &str, email_id: &str) -> (r: Result<
        Option<Email>,
        StorageError,
    >)
        ensures
            r matches Ok(o) ==> (match o {
                Some(e) => self.contents().contains_key(
                    spec_email_key(account_id@, folder@, email_id@),
                ) && dec_email(
                    self.contents()[spec_email_key(account_id@, folder@, email_id@)],
                ) == Some(e@),
                None => !self.contents().contains_key(
                    spec_email_key(account_id@, folder@, email_id@),
                ),
            }),
            (r matches Err(StorageError::Corrupt)) ==> self.contents().contains_key(
                spec_email_key(account_id@, folder@, email_id@),
            ) && dec_email(
                self.contents()[spec_email_key(account_id@, folder@, email_id@)],
            ) is None,
    {
        self.storage.get_email(account_id, folder, email_id)
    }

    /// Re-stores a message in the cache (upsert semantics).
    pub fn update_email(&mut self, email: &Email) -> (r: Result<(), StorageError>)
        ensures
            r is Ok ==> final(self).contents() == old(self).contents().insert(
                spec_key_of(email@),
                enc_email(email@),
            ),
            r is Err ==> final(self).contents() == old(self).contents() || final(self).contents()
                == old(self).contents().insert(spec_key_of(email@), enc_email(email@)),
    {
        self.storage.update_email(email)
    }
}

} // verus!
