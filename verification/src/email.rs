//! The message model: an attachment, a message, and their mathematical views.
//!
//! Decoding raw message bytes into these records is the parsing
//! collaborator's work; the cache stores them through the crate's own byte
//! codec. The timestamp is the number of seconds since the epoch, as the
//! collaborator reports it.

use crate::text::{spec_dec_chars, u64_dec_string};
use vstd::prelude::*;
use vstd::string::StringExecFns;

verus! {

/// One attachment of a message.
pub struct Attachment {
    /// Identifier unique within the message.
    pub id: String,
    /// File name as announced by the sender.
    pub filename: String,
    /// MIME content type.
    pub content_type: String,
    /// Size of the data in bytes.
    pub size: usize,
    /// The attachment bytes.
    pub data: Vec<u8>,
}

/// The mathematical view of an attachment.
#[verifier::ext_equal]
pub ghost struct AttachmentView {
    pub id: Seq<char>,
    pub filename: Seq<char>,
    pub content_type: Seq<char>,
    pub size: usize,
    pub data: Seq<u8>,
}

impl View for Attachment {
    type V = AttachmentView;

    open spec fn view(&self) -> AttachmentView {
        AttachmentView {
            id: self.id@,
            filename: self.filename@,
            content_type: self.content_type@,
            size: self.size,
            data: self.data@,
        }
    }
}

/// The scale factors of the human-readable size: a kibibyte and its powers.
pub open spec fn spec_size_unit(size: usize) -> nat {
    if size < 1024 {
        1
    } else if size < 1048576 {
        1024
    } else if size < 1073741824 {
        1048576
    } else {
        1073741824
    }
}

/// Tenths of a unit, rounded to nearest with halves up.
pub open spec fn spec_size_tenths(size: usize, unit: nat) -> nat
    recommends
        unit >= 1,
{
    ((size * 10 + unit / 2) / unit as int) as nat
}

/// The unit suffix of the human-readable size.
pub open spec fn spec_size_suffix(size: usize) -> Seq<char> {
    if size < 1024 {
        " B"@
    } else if size < 1048576 {
        " KB"@
    } else if size < 1073741824 {
        " MB"@
    } else {
        " GB"@
    }
}

impl Attachment {
    /// A field-for-field copy.
    pub fn duplicate(&self) -> (r: Attachment)
        ensures
            r@ == self@,
    {
        Attachment {
            id: self.id.clone(),
            filename: self.filename.clone(),
            content_type: self.content_type.clone(),
            size: self.size,
            data: copy_bytes(&self.data),
        }
    }

    /// The size as a human-readable phrase: plain bytes below a kibibyte,
    /// otherwise one decimal place of the scaled value with its unit suffix.
    pub fn get_size_string(&self) -> (r: String)
        ensures
            self.size < 1024 ==> r@ == spec_dec_chars(self.size as nat) + " B"@,
            self.size >= 1024 ==> r@ == ({
                let t = spec_size_tenths(self.size, spec_size_unit(self.size));
                spec_dec_chars(t / 10) + "."@ + spec_dec_chars(t % 10) + spec_size_suffix(
                    self.size,
                )
            }),
    {
        if self.size < 1024 {
            let mut s = u64_dec_string(self.size as u64);
            s.append(" B");
            return s;
        }
        let unit: u64 = if self.size < 1048576 {
            1024
        } else if self.size < 1073741824 {
            1048576
        } else {
            1073741824
        };
        let suffix: &str = if self.size < 1048576 {
            " KB"
        } else if self.size < 1073741824 {
            " MB"
        } else {
            " GB"
        };
        let scaled: u128 = (self.size as u128 * 10 + (unit / 2) as u128) / unit as u128;
        let whole: u64 = (scaled / 10) as u64;
        let tenth: u64 = (scaled % 10) as u64;
        let mut s = u64_dec_string(whole);
        s.append(".");
        let t = u64_dec_string(tenth);
        s.append(t.as_str());
        s.append(suffix);
        proof {
            let tt = spec_size_tenths(self.size, spec_size_unit(self.size));
            assert(scaled == tt);
            assert(whole == tt / 10 && tenth == tt % 10);
        }
        s
    }
}

/// The MIME content type an attachment gets from its file extension; anything
/// unrecognised is a plain byte stream.
pub open spec fn spec_content_type_for_extension(ext: Seq<char>) -> Seq<char> {
    if ext == "pdf"@ {
        "application/pdf"@
    } else if ext == "jpg"@ || ext == "jpeg"@ {
        "image/jpeg"@
    } else if ext == "png"@ {
        "image/png"@
    } else if ext == "gif"@ {
        "image/gif"@
    } else if ext == "txt"@ {
        "text/plain"@
    } else if ext == "html"@ || ext == "htm"@ {
        "text/html"@
    } else if ext == "doc"@ {
        "application/msword"@
    } else if ext == "docx"@ {
        "application/vnd.openxmlformats-officedocument.wordprocessingml.document"@
    } else if ext == "xls"@ {
        "application/vnd.ms-excel"@
    } else if ext == "xlsx"@ {
        "application/vnd.openxmlformats-officedocument.spreadsheetml.sheet"@
    } else if ext == "zip"@ {
        "application/zip"@
    } else {
        "application/octet-stream"@
    }
}

/// Maps a file extension to the MIME content type an attachment built from
/// that file announces.
pub fn content_type_for_extension(ext: &str) -> (r: &'static str)
    ensures
        r@ == spec_content_type_for_extension(ext@),
{
    if crate::config::strings_equal(ext, "pdf") {
        "application/pdf"
    } else if crate::config::strings_equal(ext, "jpg") || crate::config::strings_equal(
        ext,
        "jpeg",
    ) {
        "image/jpeg"
    } else if crate::config::strings_equal(ext, "png") {
        "image/png"
    } else if crate::config::strings_equal(ext, "gif") {
        "image/gif"
    } else if crate::config::strings_equal(ext, "txt") {
        "text/plain"
    } else if crate::config::strings_equal(ext, "html") || crate::config::strings_equal(
        ext,
        "htm",
    ) {
        "text/html"
    } else if crate::config::strings_equal(ext, "doc") {
        "application/msword"
    } else if crate::config::strings_equal(ext, "docx") {
        "application/vnd.openxmlformats-officedocument.wordprocessingml.document"
    } else if crate::config::strings_equal(ext, "xls") {
        "application/vnd.ms-excel"
    } else if crate::config::strings_equal(ext, "xlsx") {
        "application/vnd.openxmlformats-officedocument.spreadsheetml.sheet"
    } else if crate::config::strings_equal(ext, "zip") {
        "application/zip"
    } else {
        "application/octet-stream"
    }
}

/// Copies a byte vector.
pub fn copy_bytes(v: &Vec<u8>) -> (r: Vec<u8>)
    ensures
        r@ == v@,
{
    let mut out: Vec<u8> = Vec::new();
    let n = v.len();
    let mut i: usize = 0;
    while i < n
        invariant
            i <= n,
            n == v@.len(),
            out@ == v@.take(i as int),
        decreases n - i,
    {
        out.push(v[i]);
        proof {
            assert(out@ =~= v@.take(i as int + 1));
        }
        i = i + 1;
    }
    proof {
        assert(v@.take(n as int) =~= v@);
    }
    out
}

/// One message, as cached and displayed.
pub struct Email {
    /// Identifier meaningful within (account, folder).
    pub id: String,
    /// Subject line.
    pub subject: String,
    /// Sender address.
    pub from: String,
    /// Sender display name, when announced.
    pub from_name: Option<String>,
    /// Recipient addresses.
    pub to: Vec<String>,
    /// Carbon-copy addresses.
    pub cc: Vec<String>,
    /// Blind-carbon-copy addresses.
    pub bcc: Vec<String>,
    /// Plain-text body, when present.
    pub body_text: Option<String>,
    /// Rendered-markup body, when present.
    pub body_html: Option<String>,
    /// Seconds since the epoch at which the message was received.
    pub date: u64,
    /// Attachments in order.
    pub attachments: Vec<Attachment>,
    /// Whether the message has been read.
    pub is_read: bool,
    /// Whether the message has been flagged.
    pub is_flagged: bool,
    /// Raw header names and values, in order.
    pub headers: Vec<(String, String)>,
    /// The account this message belongs to.
    pub account_id: String,
    /// The folder this message belongs to.
    pub folder: String,
}

/// The mathematical view of a message.
#[verifier::ext_equal]
pub ghost struct EmailView {
    pub id: Seq<char>,
    pub subject: Seq<char>,
    pub from: Seq<char>,
    pub from_name: Option<Seq<char>>,
    pub to: Seq<Seq<char>>,
    pub cc: Seq<Seq<char>>,
    pub bcc: Seq<Seq<char>>,
    pub body_text: Option<Seq<char>>,
    pub body_html: Option<Seq<char>>,
    pub date: u64,
    pub attachments: Seq<AttachmentView>,
    pub is_read: bool,
    pub is_flagged: bool,
    pub headers: Seq<(Seq<char>, Seq<char>)>,
    pub account_id: Seq<char>,
    pub folder: Seq<char>,
}

impl View for Email {
    type V = EmailView;

    open spec fn view(&self) -> EmailView {
        EmailView {
            id: self.id@,
            subject: self.subject@,
            from: self.from@,
            from_name: match self.from_name {
                Some(s) => Some(s@),
                None => None,
            },
            to: self.to.deep_view(),
            cc: self.cc.deep_view(),
            bcc: self.bcc.deep_view(),
            body_text: match self.body_text {
                Some(s) => Some(s@),
                None => None,
            },
            body_html: match self.body_html {
                Some(s) => Some(s@),
                None => None,
            },
            date: self.date,
            attachments: Seq::new(self.attachments@.len(), |i: int| self.attachments@[i]@),
            is_read: self.is_read,
            is_flagged: self.is_flagged,
            headers: self.headers.deep_view(),
            account_id: self.account_id@,
            folder: self.folder@,
        }
    }
}

impl Email {
    /// An empty message stamped with the given construction time (seconds
    /// since the epoch — the clock is outside work, so the caller supplies
    /// it): every text field empty, unread, unflagged, in the single implicit
    /// folder.
    pub fn new(date: u64) -> (r: Email)
        ensures
            r@.id.len() == 0,
            r@.subject.len() == 0,
            r@.from.len() == 0,
            r@.from_name is None,
            r@.to.len() == 0,
            r@.cc.len() == 0,
            r@.bcc.len() == 0,
            r@.body_text is None,
            r@.body_html is None,
            r@.date == date,
            r@.attachments.len() == 0,
            r@.is_read == false,
            r@.is_flagged == false,
            r@.headers.len() == 0,
            r@.account_id.len() == 0,
            r@.folder == "INBOX"@,
    {
        let r = Email {
            id: String::new(),
            subject: String::new(),
            from: String::new(),
            from_name: None,
            to: Vec::new(),
            cc: Vec::new(),
            bcc: Vec::new(),
            body_text: None,
            body_html: None,
            date,
            attachments: Vec::new(),
            is_read: false,
            is_flagged: false,
            headers: Vec::new(),
            account_id: String::new(),
            folder: "INBOX".to_owned(),
        };
        proof {
            assert(r.to.deep_view() =~= Seq::<Seq<char>>::empty());
            assert(r.cc.deep_view() =~= Seq::<Seq<char>>::empty());
            assert(r.bcc.deep_view() =~= Seq::<Seq<char>>::empty());
            assert(r.headers.deep_view() =~= Seq::<(Seq<char>, Seq<char>)>::empty());
        }
        r
    }

    /// The sender as displayed: `name <address>` when a display name is
    /// announced, the bare address otherwise.
    pub open spec fn spec_from_display(v: EmailView) -> Seq<char> {
        match v.from_name {
            Some(name) => name + " <"@ + v.from + ">"@,
            None => v.from,
        }
    }

    /// One list line for the message: a flag mark if flagged, an unread mark
    /// if unread, then sender and subject.
    pub open spec fn spec_summary(v: EmailView) -> Seq<char> {
        let flag: Seq<char> = if v.is_flagged {
            "🚩 "@
        } else {
            Seq::empty()
        };
        let read: Seq<char> = if v.is_read {
            Seq::empty()
        } else {
            "📩 "@
        };
        flag + read + Self::spec_from_display(v) + " - "@ + v.subject
    }

    /// One list line for the message.
    pub fn get_summary(&self) -> (r: String)
        ensures
            r@ == Self::spec_summary(self@),
    {
        let mut s = String::new();
        if self.is_flagged {
            s.append("🚩 ");
        }
        if !self.is_read {
            s.append("📩 ");
        }
        match &self.from_name {
            Some(name) => {
                s.append(name.as_str());
                s.append(" <");
                s.append(self.from.as_str());
                s.append(">");
            },
            None => {
                s.append(self.from.as_str());
            },
        }
        s.append(" - ");
        s.append(self.subject.as_str());
        proof {
            assert(s@ =~= Self::spec_summary(self@));
        }
        s
    }

    /// A field-for-field copy.
    pub fn duplicate(&self) -> (r: Email)
        ensures
            r@ == self@,
    {
        let r = Email {
            id: self.id.clone(),
            subject: self.subject.clone(),
            from: self.from.clone(),
            from_name: match &self.from_name {
                Some(s) => Some(s.clone()),
                None => None,
            },
            to: copy_strings(&self.to),
            cc: copy_strings(&self.cc),
            bcc: copy_strings(&self.bcc),
            body_text: match &self.body_text {
                Some(s) => Some(s.clone()),
                None => None,
            },
            body_html: match &self.body_html {
                Some(s) => Some(s.clone()),
                None => None,
            },
            date: self.date,
            attachments: copy_attachments(&self.attachments),
            is_read: self.is_read,
            is_flagged: self.is_flagged,
            headers: copy_headers(&self.headers),
            account_id: self.account_id.clone(),
            folder: self.folder.clone(),
        };
        proof {
            assert(r@.to =~= self@.to);
            assert(r@.cc =~= self@.cc);
            assert(r@.bcc =~= self@.bcc);
            assert(r@.attachments =~= self@.attachments);
            assert(r@.headers =~= self@.headers);
        }
        r
    }
}

/// Copies a vector of strings.
pub fn copy_strings(v: &Vec<String>) -> (r: Vec<String>)
    ensures
        r.deep_view() == v.deep_view(),
        r@.len() == v@.len(),
{
    let mut out: Vec<String> = Vec::new();
    let n = v.len();
    let mut i: usize = 0;
    while i < n
        invariant
            i <= n,
            n == v@.len(),
            out@.len() == i,
            forall|j: int| 0 <= j < i ==> #[trigger] out@[j]@ == v@[j]@,
        decreases n - i,
    {
        out.push(v[i].clone());
        i = i + 1;
    }
    proof {
        assert(out.deep_view() =~= v.deep_view());
    }
    out
}

fn copy_attachments(v: &Vec<Attachment>) -> (r: Vec<Attachment>)
    ensures
        Seq::new(r@.len(), |i: int| r@[i]@) == Seq::new(v@.len(), |i: int| v@[i]@),
        r@.len() == v@.len(),
{
    let mut out: Vec<Attachment> = Vec::new();
    let n = v.len();
    let mut i: usize = 0;
    while i < n
        invariant
            i <= n,
            n == v@.len(),
            out@.len() == i,
            forall|j: int| 0 <= j < i ==> #[trigger] out@[j]@ == v@[j]@,
        decreases n - i,
    {
        out.push(v[i].duplicate());
        i = i + 1;
    }
    proof {
        assert(Seq::new(out@.len(), |i: int| out@[i]@) =~= Seq::new(v@.len(), |i: int| v@[i]@));
    }
    out
}

fn copy_headers(v: &Vec<(String, String)>) -> (r: Vec<(String, String)>)
    ensures
        r.deep_view() == v.deep_view(),
        r@.len() == v@.len(),
{
    let mut out: Vec<(String, String)> = Vec::new();
    let n = v.len();
    let mut i: usize = 0;
    while i < n
        invariant
            i <= n,
            n == v@.len(),
            out@.len() == i,
            forall|j: int|
                0 <= j < i ==> #[trigger] out@[j].0@ == v@[j].0@ && out@[j].1@ == v@[j].1@,
        decreases n - i,
    {
        let pair = &v[i];
        out.push((pair.0.clone(), pair.1.clone()));
        i = i + 1;
    }
    proof {
        assert(out.deep_view() =~= v.deep_view());
    }
    out
}

/// Newest first: each message's timestamp is at least the next one's.
pub open spec fn sorted_by_date_desc(s: Seq<Email>) -> bool {
    forall|i: int, j: int| 0 <= i < j < s.len() ==> s[i].date >= s[j].date
}

/// Where a message lands among already-sorted ones: before the first message
/// with a strictly older timestamp, so messages with equal timestamps keep
/// their existing order.
pub open spec fn spec_insert_by_date(e: Email, s: Seq<Email>) -> Seq<Email>
    decreases s.len(),
{
    if s.len() == 0 {
        seq![e]
    } else if e.date > s[0].date {
        seq![e] + s
    } else {
        seq![s[0]] + spec_insert_by_date(e, s.drop_first())
    }
}

/// Stable sort, newest first: messages are inserted in input order, each
/// after any already-placed message with the same timestamp.
pub open spec fn spec_sort_by_date(s: Seq<Email>) -> Seq<Email>
    decreases s.len(),
{
    if s.len() == 0 {
        s
    } else {
        spec_insert_by_date(s.last(), spec_sort_by_date(s.drop_last()))
    }
}

proof fn lemma_insert_by_date_props(e: Email, s: Seq<Email>)
    requires
        sorted_by_date_desc(s),
    ensures
        sorted_by_date_desc(spec_insert_by_date(e, s)),
        spec_insert_by_date(e, s).to_multiset() == s.to_multiset().insert(e),
        spec_insert_by_date(e, s).len() == s.len() + 1,
    decreases s.len(),
{
    broadcast use vstd::seq_lib::group_seq_lib_default, vstd::multiset::group_multiset_axioms;

    let out = spec_insert_by_date(e, s);
    if s.len() == 0 {
        assert(out =~= seq![e]);
        assert(seq![e].to_multiset() =~= s.to_multiset().insert(e)) by {
            seq![e].to_multiset_ensures();
            s.to_multiset_ensures();
        }
    } else if e.date > s[0].date {
        assert(out =~= seq![e] + s);
        assert forall|i: int, j: int| 0 <= i < j < out.len() implies out[i].date
            >= out[j].date by {
            if i > 0 {
                assert(out[i] == s[i - 1] && out[j] == s[j - 1]);
            } else {
                assert(out[j] == s[j - 1]);
                if j > 1 {
                    assert(s[0].date >= s[j - 1].date);
                }
            }
        }
        assert((seq![e] + s).to_multiset() =~= s.to_multiset().insert(e)) by {
            assert(seq![e] + s =~= s.insert(0, e));
            vstd::seq_lib::to_multiset_insert::<Email>(s, 0, e);
        }
    } else {
        let rest = s.drop_first();
        assert forall|i: int, j: int| 0 <= i < j < rest.len() implies rest[i].date
            >= rest[j].date by {
            assert(rest[i] == s[i + 1] && rest[j] == s[j + 1]);
        }
        lemma_insert_by_date_props(e, rest);
        let inner = spec_insert_by_date(e, rest);
        assert(out =~= seq![s[0]] + inner);
        assert forall|i: int, j: int| 0 <= i < j < out.len() implies out[i].date
            >= out[j].date by {
            if i > 0 {
                assert(out[i] == inner[i - 1] && out[j] == inner[j - 1]);
            } else {
                assert(out[j] == inner[j - 1]);
                assert(inner.to_multiset() == rest.to_multiset().insert(e));
                assert(inner.to_multiset().contains(inner[j - 1])) by {
                    inner.to_multiset_ensures();
                }
                if inner[j - 1] == e {
                    assert(s[0].date >= e.date);
                } else {
                    assert(rest.to_multiset().contains(inner[j - 1]));
                    assert(rest.contains(inner[j - 1])) by {
                        rest.to_multiset_ensures();
                    }
                    let k = choose|k: int|
                        0 <= k < rest.len() && rest[k] == inner[j - 1];
                    assert(s[0].date >= s[k + 1].date);
                }
            }
        }
        assert(out.to_multiset() =~= s.to_multiset().insert(e)) by {
            assert(out =~= inner.insert(0, s[0]));
            vstd::seq_lib::to_multiset_insert::<Email>(inner, 0, s[0]);
            assert(s =~= rest.insert(0, s[0]));
            vstd::seq_lib::to_multiset_insert::<Email>(rest, 0, s[0]);
            broadcast use vstd::multiset::group_multiset_properties;
        }
    }
}

/// The sorted sequence is newest-first and holds exactly the input messages.
pub proof fn lemma_sort_by_date_props(s: Seq<Email>)
    ensures
        sorted_by_date_desc(spec_sort_by_date(s)),
        spec_sort_by_date(s).to_multiset() == s.to_multiset(),
        spec_sort_by_date(s).len() == s.len(),
    decreases s.len(),
{
    if s.len() == 0 {
    } else {
        lemma_sort_by_date_props(s.drop_last());
        lemma_insert_by_date_props(s.last(), spec_sort_by_date(s.drop_last()));
        assert(spec_sort_by_date(s).to_multiset() =~= s.to_multiset()) by {
            assert(s =~= s.drop_last().push(s.last()));
            s.drop_last().to_multiset_ensures();
        }
    }
}

/// Inserts a message among already-sorted ones, newest first, after any
/// message with the same timestamp.
fn insert_by_date(v: &mut Vec<Email>, e: Email)
    ensures
        final(v)@ == spec_insert_by_date(e, old(v)@),
{
    let n = v.len();
    let mut p: usize = 0;
    while p < n && e.date <= v[p].date
        invariant
            0 <= p <= n,
            n == v@.len(),
            forall|k: int| 0 <= k < p ==> !(e.date > v@[k].date),
        decreases n - p,
    {
        p = p + 1;
    }
    proof {
        lemma_insert_position(old(v)@, e, p as int);
    }
    v.insert(p, e);
    proof {
        assert(v@ =~= old(v)@.take(p as int) + seq![e] + old(v)@.skip(p as int));
    }
}

/// Inserting at the first position whose message is strictly older matches
/// the recursive placement.
proof fn lemma_insert_position(s: Seq<Email>, e: Email, p: int)
    requires
        0 <= p <= s.len(),
        forall|k: int| 0 <= k < p ==> !(e.date > s[k].date),
        p < s.len() ==> e.date > s[p].date,
    ensures
        spec_insert_by_date(e, s) == s.take(p) + seq![e] + s.skip(p),
    decreases p,
{
    if s.len() == 0 {
        assert(s.take(p) + seq![e] + s.skip(p) =~= seq![e]);
    } else if p == 0 {
        if e.date > s[0].date {
            assert(s.take(0) + seq![e] + s.skip(0) =~= seq![e] + s);
        } else {
            assert(false);
        }
    } else {
        assert(!(e.date > s[0].date));
        let rest = s.drop_first();
        assert forall|k: int| 0 <= k < p - 1 implies !(e.date > rest[k].date) by {
            assert(rest[k] == s[k + 1]);
        }
        lemma_insert_position(rest, e, p - 1);
        assert(s.take(p) + seq![e] + s.skip(p) =~= seq![s[0]] + (rest.take(p - 1) + seq![e]
            + rest.skip(p - 1)));
    }
}

/// Sorts messages newest first; messages with equal timestamps retain their
/// input order, and the result holds exactly the input messages.
pub fn sort_emails_by_date(v: Vec<Email>) -> (r: Vec<Email>)
    ensures
        r@ == spec_sort_by_date(v@),
        sorted_by_date_desc(r@),
        r@.to_multiset() == v@.to_multiset(),
        r@.len() == v@.len(),
{
    let ghost orig = v@;
    let mut src = v;
    let n = src.len();
    let mut out: Vec<Email> = Vec::new();
    let mut i: usize = 0;
    proof {
        assert(orig.take(0) =~= Seq::<Email>::empty());
        assert(src@ =~= orig.skip(0));
    }
    while src.len() > 0
        invariant
            0 <= i <= n,
            orig.len() == n,
            src@ == orig.skip(i as int),
            out@ == spec_sort_by_date(orig.take(i as int)),
        decreases src@.len(),
    {
        let e = src.remove(0);
        proof {
            assert(e == orig[i as int]);
            assert(src@ =~= orig.skip(i as int + 1));
        }
        insert_by_date(&mut out, e);
        proof {
            assert(orig.take(i as int + 1).drop_last() =~= orig.take(i as int));
            assert(orig.take(i as int + 1).last() == orig[i as int]);
        }
        i = i + 1;
    }
    proof {
        assert(orig.take(i as int) =~= orig);
        lemma_sort_by_date_props(orig);
    }
    out
}

} // verus!
