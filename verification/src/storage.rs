//! The message cache: an embedded key-value store holding encoded messages
//! under composite string keys, the sole durable source of truth when no
//! connection is available.
//!
//! The store itself is the `sled` embedded database, declared and wrapped as
//! trusted items; its contents are modelled as a map from key bytes to value
//! bytes. Everything above the wrappers — key layout, the message codec, and
//! what each operation does to the map — is verified.

use crate::codec::{dec_email, decode_email, enc_email, encode_email};
use crate::email::{sort_emails_by_date, sorted_by_date_desc, Email};
use crate::errors::StorageError;
use crate::text::lemma_encode_utf8_concat;
use vstd::prelude::*;
use vstd::string::{StrSliceExecFns, StringExecFns, StringSliceAdditionalSpecFns};
use vstd::utf8::encode_utf8;

verus! {

#[verifier::external_type_specification]
#[verifier::external_body]
pub struct ExDb(sled::Db);

/// What the store holds: a map from key bytes to value bytes.
pub uninterp spec fn db_view(db: sled::Db) -> Map<Seq<u8>, Seq<u8>>;

/// The key a message is cached under: `email:<account>:<folder>:<id>`.
pub open spec fn spec_email_key(account_id: Seq<char>, folder: Seq<char>, id: Seq<char>) -> Seq<
    u8,
> {
    encode_utf8("email:"@ + account_id + ":"@ + folder + ":"@ + id)
}

/// The key prefix of every message of one folder of one account:
/// `email:<account>:<folder>:`.
pub open spec fn spec_folder_prefix(account_id: Seq<char>, folder: Seq<char>) -> Seq<u8> {
    encode_utf8("email:"@ + account_id + ":"@ + folder + ":"@)
}

/// The key prefix of every message of one account: `email:<account>:`.
pub open spec fn spec_account_prefix(account_id: Seq<char>) -> Seq<u8> {
    encode_utf8("email:"@ + account_id + ":"@)
}

/// A message's key carries its folder prefix.
pub proof fn lemma_key_has_folder_prefix(account_id: Seq<char>, folder: Seq<char>, id: Seq<char>)
    ensures
        spec_folder_prefix(account_id, folder).is_prefix_of(
            spec_email_key(account_id, folder, id),
        ),
{
    let p = "email:"@ + account_id + ":"@ + folder + ":"@;
    assert(p + id =~= "email:"@ + account_id + ":"@ + folder + ":"@ + id);
    lemma_encode_utf8_concat(p, id);
    assert(encode_utf8(p + id).subrange(0, encode_utf8(p).len() as int) =~= encode_utf8(p));
}

/// Builds a message key or prefix as a string.
fn email_key_string(account_id: &str, folder: &str, id: &str) -> (r: String)
    ensures
        r@ == "email:"@ + account_id@ + ":"@ + folder@ + ":"@ + id@,
{
    let mut s = "email:".to_owned();
    s.append(account_id);
    s.append(":");
    s.append(folder);
    s.append(":");
    s.append(id);
    s
}

/// Whether `e` decodes from some cached record under `prefix`.
pub open spec fn decodes_under(contents: Map<Seq<u8>, Seq<u8>>, prefix: Seq<u8>, e: Email) -> bool {
    exists|k: Seq<u8>|
        #![trigger contents.contains_key(k), prefix.is_prefix_of(k)]
        contents.contains_key(k) && prefix.is_prefix_of(k) && dec_email(contents[k]) == Some(e@)
}

/// Whether the record at `k` decodes to some message in `list`.
pub open spec fn decoded_into(contents: Map<Seq<u8>, Seq<u8>>, k: Seq<u8>, list: Seq<Email>) -> bool {
    exists|a: int|
        #![trigger list[a]]
        0 <= a < list.len() && dec_email(contents[k]) == Some(list[a]@)
}

/// Every message in `list` decodes from some cached record under `prefix`.
pub open spec fn list_sound(contents: Map<Seq<u8>, Seq<u8>>, prefix: Seq<u8>, list: Seq<Email>) -> bool {
    forall|a: int|
        #![trigger list[a]]
        0 <= a < list.len() ==> decodes_under(contents, prefix, list[a])
}

/// Every cached record under `prefix` decodes to some message in `list`.
pub open spec fn list_complete(contents: Map<Seq<u8>, Seq<u8>>, prefix: Seq<u8>, list: Seq<Email>) -> bool {
    forall|k: Seq<u8>|
        #![trigger contents.contains_key(k), prefix.is_prefix_of(k)]
        contents.contains_key(k) && prefix.is_prefix_of(k) ==> decoded_into(contents, k, list)
}

/// One row per cached record under `prefix`: `ks` lists each matching key
/// exactly once, and `raw[i]` is the decode of the record at `ks[i]`.
pub open spec fn folder_snapshot(
    contents: Map<Seq<u8>, Seq<u8>>,
    prefix: Seq<u8>,
    ks: Seq<Seq<u8>>,
    raw: Seq<Email>,
) -> bool {
    &&& ks.len() == raw.len()
    &&& (forall|i: int, j: int| 0 <= i < j < ks.len() ==> ks[i] != ks[j])
    &&& (forall|i: int|
        #![trigger ks[i]]
        0 <= i < ks.len() ==> contents.contains_key(ks[i]) && prefix.is_prefix_of(ks[i])
            && dec_email(contents[ks[i]]) == Some(raw[i]@))
    &&& (forall|k: Seq<u8>|
        #![trigger contents.contains_key(k), prefix.is_prefix_of(k)]
        contents.contains_key(k) && prefix.is_prefix_of(k) ==> ks.contains(k))
}

/// `list` holds the decodes of the records under `prefix` with multiplicity:
/// it is a permutation of a sequence with one entry per matching key.
pub open spec fn lists_folder(
    contents: Map<Seq<u8>, Seq<u8>>,
    prefix: Seq<u8>,
    list: Seq<Email>,
) -> bool {
    exists|ks: Seq<Seq<u8>>, raw: Seq<Email>|
        #![trigger folder_snapshot(contents, prefix, ks, raw)]
        folder_snapshot(contents, prefix, ks, raw) && list.to_multiset() == raw.to_multiset()
}

/// The message cache.
pub struct EmailStorage {
    db: sled::Db,
}

impl EmailStorage {
    /// The cached contents, as a map from key bytes to value bytes.
    pub closed spec fn contents(self) -> Map<Seq<u8>, Seq<u8>> {
        db_view(self.db)
    }

    /// Relies on `sled::open`: opens (or creates) the store rooted at the
    /// given path. What it holds is whatever the path held.
    #[verifier::external_body]
    pub fn new(path: &str) -> (r: Result<EmailStorage, StorageError>)
        ensures
            r matches Err(e) ==> e is Backend,
    {
        match sled::open(path) {
            Ok(db) => Ok(EmailStorage { db }),
            Err(e) => Err(StorageError::Backend(format!("{}", e))),
        }
    }

    /// Relies on `sled::Config::open` with `temporary(true)`: a store in
    /// fresh scratch space, starting empty and removed when dropped.
    #[verifier::external_body]
    pub fn new_temporary() -> (r: Result<EmailStorage, StorageError>)
        ensures
            r matches Err(e) ==> e is Backend,
            r matches Ok(store) ==> store.contents().dom() =~= Set::empty(),
    {
        match sled::Config::new().temporary(true).open() {
            Ok(db) => Ok(EmailStorage { db }),
            Err(e) => Err(StorageError::Backend(format!("{}", e))),
        }
    }

    /// Relies on `sled::Tree::insert`: on success the key maps to the value.
    /// An error can be reported before or after the pair is installed in the
    /// live tree, so a failing call leaves the contents either unchanged or
    /// updated.
    #[verifier::external_body]
    fn db_insert(&mut self, key: &Vec<u8>, value: &Vec<u8>) -> (r: Result<(), StorageError>)
        ensures
            r is Ok ==> db_view(final(self).db) == db_view(old(self).db).insert(key@, value@),
            r is Err ==> db_view(final(self).db) == db_view(old(self).db) || db_view(
                final(self).db,
            ) == db_view(old(self).db).insert(key@, value@),
    {
        match self.db.insert(key.as_slice(), value.as_slice()) {
            Ok(_) => Ok(()),
            Err(e) => Err(StorageError::Backend(format!("{}", e))),
        }
    }

    /// Relies on `sled::Tree::get`: returns the value the key maps to, if
    /// any.
    #[verifier::external_body]
    fn db_get(&self, key: &Vec<u8>) -> (r: Result<Option<Vec<u8>>, StorageError>)
        ensures
            r matches Err(e) ==> e is Backend,
            r matches Ok(o) ==> (match o {
                Some(v) => db_view(self.db).contains_key(key@) && db_view(self.db)[key@] == v@,
                None => !db_view(self.db).contains_key(key@),
            }),
    {
        match self.db.get(key.as_slice()) {
            Ok(o) => Ok(o.map(|iv| iv.to_vec())),
            Err(e) => Err(StorageError::Backend(format!("{}", e))),
        }
    }

    /// Relies on `sled::Tree::remove`: on success the key is unmapped. An
    /// error can be reported before or after the deletion is installed in the
    /// live tree, so a failing call leaves the contents either unchanged or
    /// updated.
    #[verifier::external_body]
    fn db_remove(&mut self, key: &Vec<u8>) -> (r: Result<(), StorageError>)
        ensures
            r is Ok ==> db_view(final(self).db) == db_view(old(self).db).remove(key@),
            r is Err ==> db_view(final(self).db) == db_view(old(self).db) || db_view(
                final(self).db,
            ) == db_view(old(self).db).remove(key@),
    {
        match self.db.remove(key.as_slice()) {
            Ok(_) => Ok(()),
            Err(e) => Err(StorageError::Backend(format!("{}", e))),
        }
    }

    /// Relies on `sled::Tree::scan_prefix`: yields every pair whose key
    /// starts with the prefix, each key once, with its current value.
    #[verifier::external_body]
    fn db_scan_prefix(&self, prefix: &Vec<u8>) -> (r: Result<
        Vec<(Vec<u8>, Vec<u8>)>,
        StorageError,
    >)
        ensures
            r matches Ok(pairs) ==> (forall|i: int|
                0 <= i < pairs@.len() ==> db_view(self.db).contains_key(
                    (#[trigger] pairs@[i]).0@,
                ) && db_view(self.db)[pairs@[i].0@] == pairs@[i].1@ && prefix@.is_prefix_of(
                    pairs@[i].0@,
                )),
            r matches Ok(pairs) ==> (forall|k: Seq<u8>|
                db_view(self.db).contains_key(k) && prefix@.is_prefix_of(k) ==> exists|i: int|
                    0 <= i < pairs@.len() && (#[trigger] pairs@[i]).0@ == k),
            r matches Ok(pairs) ==> (forall|i: int, j: int|
                0 <= i < j < pairs@.len() ==> (#[trigger] pairs@[i]).0@ != (
                #[trigger] pairs@[j]).0@),
    {
        let mut out: Vec<(Vec<u8>, Vec<u8>)> = Vec::new();
        for item in self.db.scan_prefix(prefix.as_slice()) {
            match item {
                Ok((k, v)) => out.push((k.to_vec(), v.to_vec())),
                Err(e) => {
                    return Err(StorageError::Backend(format!("{}", e)));
                },
            }
        }
        Ok(out)
    }

    /// Relies on `sled::Tree::flush`: forces what was applied onto durable
    /// storage.
    #[verifier::external_body]
    fn db_flush(&self) -> (r: Result<(), StorageError>)
        ensures
            r matches Err(e) ==> e is Backend,
    {
        match self.db.flush() {
            Ok(_) => Ok(()),
            Err(e) => Err(StorageError::Backend(format!("{}", e))),
        }
    }

    /// Stores a message under its `(account, folder, id)` key, overwriting in
    /// place: last write wins. On success the cache maps the message's key to
    /// its encoding; a reported error either left the cache unchanged or
    /// completed the write without making it durable.
    pub fn store_email(&mut self, email: &Email) -> (r: Result<(), StorageError>)
        ensures
            crate::codec::email_fits(email@),
            r is Ok ==> final(self).contents() == old(self).contents().insert(
                spec_email_key(email@.account_id, email@.folder, email@.id),
                enc_email(email@),
            ),
            r is Err ==> final(self).contents() == old(self).contents() || final(self).contents()
                == old(self).contents().insert(
                spec_email_key(email@.account_id, email@.folder, email@.id),
                enc_email(email@),
            ),
    {
        let key_string = email_key_string(
            self_str(&email.account_id),
            self_str(&email.folder),
            self_str(&email.id),
        );
        let key = key_string.as_str().as_bytes_vec();
        let value = encode_email(email);
        self.db_insert(&key, &value)?;
        self.db_flush()?;
        Ok(())
    }

    /// Re-stores a message (upsert semantics: same as storing it).
    pub fn update_email(&mut self, email: &Email) -> (r: Result<(), StorageError>)
        ensures
            r is Ok ==> final(self).contents() == old(self).contents().insert(
                spec_email_key(email@.account_id, email@.folder, email@.id),
                enc_email(email@),
            ),
            r is Err ==> final(self).contents() == old(self).contents() || final(self).contents()
                == old(self).contents().insert(
                spec_email_key(email@.account_id, email@.folder, email@.id),
                enc_email(email@),
            ),
    {
        self.store_email(email)
    }

    /// Fetches the message cached under `(account, folder, id)`: the decoded
    /// record when the key is mapped, nothing when it is not, and `Corrupt`
    /// when the key is mapped to bytes that are no message encoding.
    pub fn get_email(&self, account_id: &str, folder: &str, email_id: &str) -> (r: Result<
        Option<Email>,
        StorageError,
    >)
        ensures
            r matches Ok(o) ==> (match o {
                Some(e) => self.contents().contains_key(
                    spec_email_key(account_id@, folder@, email_id@),
                ) && dec_email(
                    self.contents()[spec_email_key(account_id@, folder@, email_id@)],
                ) == Some(e@),
                None => !self.contents().contains_key(
                    spec_email_key(account_id@, folder@, email_id@),
                ),
            }),
            (r matches Err(StorageError::Corrupt)) ==> self.contents().contains_key(
                spec_email_key(account_id@, folder@, email_id@),
            ) && dec_email(
                self.contents()[spec_email_key(account_id@, folder@, email_id@)],
            ) is None,
    {
        let key_string = email_key_string(account_id, folder, email_id);
        let key = key_string.as_str().as_bytes_vec();
        match self.db_get(&key)? {
            None => Ok(None),
            Some(value) => match decode_email(value.as_slice()) {
                Some(e) => Ok(Some(e)),
                None => Err(StorageError::Corrupt),
            },
        }
    }

    /// Fetches every message cached for `(account, folder)`, newest first,
    /// messages with equal timestamps in store order. The result holds one
    /// message per cached record under the folder's key prefix — no record
    /// missed, none returned twice — and a record that is no message encoding
    /// is reported as `Corrupt`.
    pub fn get_emails(&self, account_id: &str, folder: &str) -> (r: Result<
        Vec<Email>,
        StorageError,
    >)
        ensures
            r matches Ok(list) ==> {
                let prefix = spec_folder_prefix(account_id@, folder@);
                &&& sorted_by_date_desc(list@)
                &&& list_sound(self.contents(), prefix, list@)
                &&& list_complete(self.contents(), prefix, list@)
                &&& lists_folder(self.contents(), prefix, list@)
            },
    {
        let mut prefix_string = email_key_string(account_id, folder, "");
        let prefix = prefix_string.as_str().as_bytes_vec();
        proof {
            reveal_strlit("");
            assert("email:"@ + account_id@ + ":"@ + folder@ + ":"@ + ""@ =~= "email:"@
                + account_id@ + ":"@ + folder@ + ":"@);
        }
        let pairs = self.db_scan_prefix(&prefix)?;
        let ghost keys = Seq::new(pairs@.len(), |i: int| pairs@[i].0@);
        let ghost vals = Seq::new(pairs@.len(), |i: int| pairs@[i].1@);
        let emails = match decode_pairs(&pairs) {
            Some(list) => list,
            None => {
                return Err(StorageError::Corrupt);
            },
        };
        let ghost decoded = emails@;
        let sorted = sort_emails_by_date(emails);
        proof {
            let prefix_seq = spec_folder_prefix(account_id@, folder@);
            assert(prefix@ == prefix_seq);
            assert forall|i: int| 0 <= i < keys.len() implies self.contents().contains_key(
                #[trigger] keys[i],
            ) && self.contents()[keys[i]] == vals[i] && prefix_seq.is_prefix_of(keys[i]) by {
                assert(keys[i] == pairs@[i].0@);
                assert(vals[i] == pairs@[i].1@);
            }
            assert forall|k: Seq<u8>|
                self.contents().contains_key(k) && prefix_seq.is_prefix_of(k) implies exists|
                i: int,
            | 0 <= i < keys.len() && #[trigger] keys[i] == k by {
                let i = choose|i: int| 0 <= i < pairs@.len() && (#[trigger] pairs@[i]).0@ == k;
                assert(keys[i] == k);
            }
            assert forall|j: int| 0 <= j < decoded.len() implies dec_email(#[trigger] vals[j])
                == Some(decoded[j]@) by {
                assert(vals[j] == pairs@[j].1@);
            }
            lemma_get_emails_post(
                self.contents(),
                spec_folder_prefix(account_id@, folder@),
                keys,
                vals,
                decoded,
                sorted@,
            );
            assert forall|i: int, j: int| 0 <= i < j < keys.len() implies keys[i] != keys[j] by {
                assert(keys[i] == pairs@[i].0@);
                assert(keys[j] == pairs@[j].0@);
            }
            assert forall|k: Seq<u8>|
                self.contents().contains_key(k) && prefix_seq.is_prefix_of(k) implies keys.contains(
                k,
            ) by {
                let i = choose|i: int| 0 <= i < keys.len() && #[trigger] keys[i] == k;
                assert(0 <= i < keys.len() && keys[i] == k);
            }
            assert(folder_snapshot(self.contents(), prefix_seq, keys, decoded));
            assert(lists_folder(self.contents(), prefix_seq, sorted@));
        }
        Ok(sorted)
    }

    /// Unmaps the `(account, folder, id)` key; absent keys stay absent.
    pub fn delete_email(&mut self, account_id: &str, folder: &str, email_id: &str) -> (r: Result<
        (),
        StorageError,
    >)
        ensures
            r is Ok ==> final(self).contents() == old(self).contents().remove(
                spec_email_key(account_id@, folder@, email_id@),
            ),
            r is Err ==> final(self).contents() == old(self).contents() || final(self).contents()
                == old(self).contents().remove(spec_email_key(account_id@, folder@, email_id@)),
    {
        let key_string = email_key_string(account_id, folder, email_id);
        let key = key_string.as_str().as_bytes_vec();
        self.db_remove(&key)?;
        self.db_flush()?;
        Ok(())
    }

    /// Removes every cached message of one account: afterwards no key under
    /// the account's prefix remains, and every other record is untouched — on
    /// a reported error too, since only scanned keys of that prefix are
    /// removed.
    pub fn delete_account(&mut self, account_id: &str) -> (r: Result<(), StorageError>)
        ensures
            forall|k: Seq<u8>|
                !spec_account_prefix(account_id@).is_prefix_of(k) ==> ((
                final(self).contents().contains_key(k) <==> old(self).contents().contains_key(k))
                    && (final(self).contents().contains_key(k) ==> final(self).contents()[k] == old(
                    self,
                ).contents()[k])),
            r is Ok ==> (forall|k: Seq<u8>|
                final(self).contents().contains_key(k) ==> !spec_account_prefix(
                    account_id@,
                ).is_prefix_of(k)),
    {
        let mut prefix_string = "email:".to_owned();
        prefix_string.append(account_id);
        prefix_string.append(":");
        let prefix = prefix_string.as_str().as_bytes_vec();
        proof {
            assert(prefix@ == spec_account_prefix(account_id@));
        }
        let ghost c0 = self.contents();
        let pairs = self.db_scan_prefix(&prefix)?;
        let n = pairs.len();
        let mut i: usize = 0;
        while i < n
            invariant
                i <= n,
                n == pairs@.len(),
                forall|k: Seq<u8>|
                    #![trigger self.contents().contains_key(k)]
                    self.contents().contains_key(k) ==> c0.contains_key(k) && self.contents()[k]
                        == c0[k],
                forall|k: Seq<u8>|
                    #![trigger c0.contains_key(k)]
                    c0.contains_key(k) && !prefix@.is_prefix_of(k) ==> self.contents().contains_key(
                        k,
                    ),
                forall|j: int| 0 <= j < i ==> !self.contents().contains_key((#[trigger] pairs@[j]).0@),
                forall|j: int|
                    0 <= j < n ==> c0.contains_key((#[trigger] pairs@[j]).0@) && prefix@.is_prefix_of(
                        pairs@[j].0@,
                    ),
                forall|k: Seq<u8>|
                    #![trigger prefix@.is_prefix_of(k)]
                    c0.contains_key(k) && prefix@.is_prefix_of(k) ==> exists|j: int|
                        0 <= j < n && (#[trigger] pairs@[j]).0@ == k,
                c0 == old(self).contents(),
                prefix@ == spec_account_prefix(account_id@),
            decreases n - i,
        {
            let ghost mid = self.contents();
            let outcome = self.db_remove(&pairs[i].0);
            proof {
                let removed = pairs@[i as int].0@;
                assert(self.contents() == mid || self.contents() == mid.remove(removed));
                assert forall|k: Seq<u8>|
                    #![trigger self.contents().contains_key(k)]
                    self.contents().contains_key(k) implies c0.contains_key(k) && self.contents()[k]
                    == c0[k] by {
                    assert(mid.contains_key(k) && mid[k] == c0[k]);
                }
                assert forall|k: Seq<u8>|
                    #![trigger c0.contains_key(k)]
                    c0.contains_key(k) && !prefix@.is_prefix_of(k) implies self.contents().contains_key(
                    k,
                ) by {
                    assert(prefix@.is_prefix_of(removed));
                    assert(mid.contains_key(k));
                }
            }
            match outcome {
                Ok(()) => {},
                Err(e) => {
                    return Err(e);
                },
            }
            i = i + 1;
        }
        self.db_flush()?;
        proof {
            assert forall|k: Seq<u8>|
                self.contents().contains_key(k) implies !spec_account_prefix(
                account_id@,
            ).is_prefix_of(k) by {
                if spec_account_prefix(account_id@).is_prefix_of(k) {
                    assert(c0.contains_key(k));
                    let j = choose|j: int| 0 <= j < n && (#[trigger] pairs@[j]).0@ == k;
                    assert(!self.contents().contains_key(pairs@[j].0@));
                }
            }
        }
        Ok(())
    }

    /// Relies on `sled::Tree::flush`: makes what was applied durable.
    pub fn close(&self) -> (r: Result<(), StorageError>) {
        self.db_flush()
    }
}

/// Decodes every value of a scanned key range, in order.
fn decode_pairs(pairs: &Vec<(Vec<u8>, Vec<u8>)>) -> (r: Option<Vec<Email>>)
    ensures
        r matches Some(list) ==> list@.len() == pairs@.len() && (forall|j: int|
            0 <= j < pairs@.len() ==> dec_email((#[trigger] pairs@[j]).1@) == Some(
                list@[j]@,
            )),
{
    let mut emails: Vec<Email> = Vec::new();
    let n = pairs.len();
    let mut i: usize = 0;
    while i < n
        invariant
            i <= n,
            n == pairs@.len(),
            emails@.len() == i,
            forall|j: int|
                0 <= j < i ==> dec_email((#[trigger] pairs@[j]).1@) == Some(emails@[j]@),
        decreases n - i,
    {
        let value = &pairs[i].1;
        match decode_email(value.as_slice()) {
            Some(e) => {
                emails.push(e);
            },
            None => {
                return None;
            },
        }
        i = i + 1;
    }
    Some(emails)
}

/// What a scan followed by decoding and sorting yields: every message in the
/// result decodes from some record under the prefix, and every record under
/// the prefix decodes to some message in the result.
#[verifier::rlimit(100)]
#[verifier::spinoff_prover]
proof fn lemma_get_emails_post(
    contents: Map<Seq<u8>, Seq<u8>>,
    prefix: Seq<u8>,
    keys: Seq<Seq<u8>>,
    vals: Seq<Seq<u8>>,
    decoded: Seq<Email>,
    sorted: Seq<Email>,
)
    requires
        keys.len() == vals.len(),
        decoded.len() == keys.len(),
        forall|i: int|
            0 <= i < keys.len() ==> contents.contains_key(#[trigger] keys[i])
                && contents[keys[i]] == vals[i] && prefix.is_prefix_of(keys[i]),
        forall|k: Seq<u8>|
            contents.contains_key(k) && prefix.is_prefix_of(k) ==> exists|i: int|
                0 <= i < keys.len() && #[trigger] keys[i] == k,
        forall|i: int|
            0 <= i < decoded.len() ==> dec_email(#[trigger] vals[i]) == Some(decoded[i]@),
        sorted.to_multiset() == decoded.to_multiset(),
    ensures
        list_sound(contents, prefix, sorted),
        list_complete(contents, prefix, sorted),
{
    broadcast use vstd::seq_lib::group_to_multiset_ensures;

    assert forall|a: int|
        #![trigger sorted[a]]
        0 <= a < sorted.len() implies decodes_under(contents, prefix, sorted[a]) by {
        assert(sorted.to_multiset().contains(sorted[a]));
        assert(decoded.to_multiset().contains(sorted[a]));
        assert(decoded.contains(sorted[a]));
        let j = choose|j: int| 0 <= j < decoded.len() && decoded[j] == sorted[a];
        assert(contents.contains_key(keys[j]) && prefix.is_prefix_of(keys[j]));
        assert(dec_email(contents[keys[j]]) == Some(sorted[a]@));
    }
    assert forall|k: Seq<u8>|
        #![trigger contents.contains_key(k), prefix.is_prefix_of(k)]
        contents.contains_key(k) && prefix.is_prefix_of(k) implies decoded_into(
        contents,
        k,
        sorted,
    ) by {
        let j = choose|j: int| 0 <= j < keys.len() && #[trigger] keys[j] == k;
        assert(dec_email(contents[k]) == Some(decoded[j]@));
        assert(decoded.to_multiset().contains(decoded[j]));
        assert(sorted.to_multiset().contains(decoded[j]));
        assert(sorted.contains(decoded[j]));
        let a = choose|a: int| 0 <= a < sorted.len() && sorted[a] == decoded[j];
        assert(dec_email(contents[k]) == Some(sorted[a]@));
    }
}

/// A plain borrow of a string.
fn self_str(s: &String) -> (r: &str)
    ensures
        r@ == s@,
{
    s.as_str()
}

} // verus!
