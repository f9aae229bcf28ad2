//! The byte codec the cache stores messages in: length-prefixed fields in a
//! fixed order. Encoding and decoding are specified as functions on
//! sequences, and decoding an encoded message provably yields the message
//! back ([`lemma_email_round_trip`]).

use crate::email::{Attachment, AttachmentView, Email, EmailView};
use crate::text::string_from_utf8;
use vstd::bytes::{
    lemma_auto_spec_u64_to_from_le_bytes, spec_u64_from_le_bytes, spec_u64_to_le_bytes,
    u64_from_le_bytes, u64_to_le_bytes,
};
use vstd::prelude::*;
use vstd::slice::slice_subrange;
use vstd::string::{StrSliceExecFns, StringSliceAdditionalSpecFns};
use vstd::utf8::{
    decode_utf8, encode_utf8, encode_utf8_decode_utf8, encode_utf8_valid_utf8, valid_utf8,
};

verus! {

// ---------------------------------------------------------------------------
// Encoders, as functions on sequences.
// ---------------------------------------------------------------------------
/// A machine word, little endian, eight bytes.
pub open spec fn enc_u64(x: u64) -> Seq<u8> {
    spec_u64_to_le_bytes(x)
}

/// A byte string: its length, then its bytes.
pub open spec fn enc_bytes(b: Seq<u8>) -> Seq<u8> {
    enc_u64(b.len() as u64) + b
}

/// A character string: its UTF-8 bytes, length-prefixed.
pub open spec fn enc_string(s: Seq<char>) -> Seq<u8> {
    enc_bytes(encode_utf8(s))
}

/// A flag: one byte, zero or one.
pub open spec fn enc_bool(b: bool) -> Seq<u8> {
    if b {
        seq![1u8]
    } else {
        seq![0u8]
    }
}

/// An optional string: a presence byte, then the string if present.
pub open spec fn enc_opt_string(o: Option<Seq<char>>) -> Seq<u8> {
    match o {
        None => seq![0u8],
        Some(s) => seq![1u8] + enc_string(s),
    }
}

/// The elements of a string list, in order.
pub open spec fn enc_strings(v: Seq<Seq<char>>) -> Seq<u8>
    decreases v.len(),
{
    if v.len() == 0 {
        Seq::empty()
    } else {
        enc_string(v[0]) + enc_strings(v.drop_first())
    }
}

/// A string list: its length, then its elements.
pub open spec fn enc_string_list(v: Seq<Seq<char>>) -> Seq<u8> {
    enc_u64(v.len() as u64) + enc_strings(v)
}

/// A header: name, then value.
pub open spec fn enc_header(h: (Seq<char>, Seq<char>)) -> Seq<u8> {
    enc_string(h.0) + enc_string(h.1)
}

/// The elements of a header list, in order.
pub open spec fn enc_headers(v: Seq<(Seq<char>, Seq<char>)>) -> Seq<u8>
    decreases v.len(),
{
    if v.len() == 0 {
        Seq::empty()
    } else {
        enc_header(v[0]) + enc_headers(v.drop_first())
    }
}

/// A header list: its length, then its elements.
pub open spec fn enc_header_list(v: Seq<(Seq<char>, Seq<char>)>) -> Seq<u8> {
    enc_u64(v.len() as u64) + enc_headers(v)
}

/// An attachment: identity, file name, content type, size, data.
pub open spec fn enc_attachment(a: AttachmentView) -> Seq<u8> {
    enc_string(a.id) + enc_string(a.filename) + enc_string(a.content_type) + enc_u64(a.size as u64)
        + enc_bytes(a.data)
}

/// The elements of an attachment list, in order.
pub open spec fn enc_attachments(v: Seq<AttachmentView>) -> Seq<u8>
    decreases v.len(),
{
    if v.len() == 0 {
        Seq::empty()
    } else {
        enc_attachment(v[0]) + enc_attachments(v.drop_first())
    }
}

/// An attachment list: its length, then its elements.
pub open spec fn enc_attachment_list(v: Seq<AttachmentView>) -> Seq<u8> {
    enc_u64(v.len() as u64) + enc_attachments(v)
}

/// A whole message, fields in declaration order.
pub open spec fn enc_email(v: EmailView) -> Seq<u8> {
    enc_string(v.id) + enc_string(v.subject) + enc_string(v.from) + enc_opt_string(v.from_name)
        + enc_string_list(v.to) + enc_string_list(v.cc) + enc_string_list(v.bcc) + enc_opt_string(
        v.body_text,
    ) + enc_opt_string(v.body_html) + enc_u64(v.date) + enc_attachment_list(v.attachments)
        + enc_bool(v.is_read) + enc_bool(v.is_flagged) + enc_header_list(v.headers) + enc_string(
        v.account_id,
    ) + enc_string(v.folder)
}

// ---------------------------------------------------------------------------
// Size bounds under which a value can be encoded and decoded back.
// ---------------------------------------------------------------------------
/// Whether a string's encoding fits a length prefix.
pub open spec fn str_fits(s: Seq<char>) -> bool {
    encode_utf8(s).len() <= u64::MAX
}

/// Whether every string in a list fits, and the list's length does.
pub open spec fn string_list_fits(v: Seq<Seq<char>>) -> bool {
    &&& v.len() <= u64::MAX
    &&& forall|i: int| 0 <= i < v.len() ==> str_fits(#[trigger] v[i])
}

/// Whether every header in a list fits, and the list's length does.
pub open spec fn header_list_fits(v: Seq<(Seq<char>, Seq<char>)>) -> bool {
    &&& v.len() <= u64::MAX
    &&& forall|i: int| 0 <= i < v.len() ==> str_fits(#[trigger] v[i].0) && str_fits(v[i].1)
}

/// Whether an attachment's fields fit their length prefixes.
pub open spec fn attachment_fits(a: AttachmentView) -> bool {
    &&& str_fits(a.id)
    &&& str_fits(a.filename)
    &&& str_fits(a.content_type)
    &&& a.data.len() <= u64::MAX
}

/// Whether every attachment in a list fits, and the list's length does.
pub open spec fn attachment_list_fits(v: Seq<AttachmentView>) -> bool {
    &&& v.len() <= u64::MAX
    &&& forall|i: int| 0 <= i < v.len() ==> attachment_fits(#[trigger] v[i])
}

/// Whether an optional string fits.
pub open spec fn opt_string_fits(o: Option<Seq<char>>) -> bool {
    match o {
        None => true,
        Some(s) => str_fits(s),
    }
}

/// Whether a whole message fits the codec's length prefixes.
pub open spec fn email_fits(v: EmailView) -> bool {
    &&& str_fits(v.id)
    &&& str_fits(v.subject)
    &&& str_fits(v.from)
    &&& opt_string_fits(v.from_name)
    &&& string_list_fits(v.to)
    &&& string_list_fits(v.cc)
    &&& string_list_fits(v.bcc)
    &&& opt_string_fits(v.body_text)
    &&& opt_string_fits(v.body_html)
    &&& attachment_list_fits(v.attachments)
    &&& header_list_fits(v.headers)
    &&& str_fits(v.account_id)
    &&& str_fits(v.folder)
}

// ---------------------------------------------------------------------------
// Decoders, as functions on sequences. Each takes the whole input and a
// position, and yields the value with the position after it.
// ---------------------------------------------------------------------------
pub open spec fn dec_u64(s: Seq<u8>, i: int) -> Option<(u64, int)> {
    if 0 <= i && i + 8 <= s.len() {
        Some((spec_u64_from_le_bytes(s.subrange(i, i + 8)), i + 8))
    } else {
        None
    }
}

pub open spec fn dec_bytes(s: Seq<u8>, i: int) -> Option<(Seq<u8>, int)> {
    match dec_u64(s, i) {
        None => None,
        Some((n, j)) => if j + n <= s.len() {
            Some((s.subrange(j, j + n), j + n))
        } else {
            None
        },
    }
}

pub open spec fn dec_string(s: Seq<u8>, i: int) -> Option<(Seq<char>, int)> {
    match dec_bytes(s, i) {
        None => None,
        Some((b, j)) => if valid_utf8(b) {
            Some((decode_utf8(b), j))
        } else {
            None
        },
    }
}

pub open spec fn dec_bool(s: Seq<u8>, i: int) -> Option<(bool, int)> {
    if 0 <= i < s.len() {
        if s[i] == 0u8 {
            Some((false, i + 1))
        } else if s[i] == 1u8 {
            Some((true, i + 1))
        } else {
            None
        }
    } else {
        None
    }
}

pub open spec fn dec_opt_string(s: Seq<u8>, i: int) -> Option<(Option<Seq<char>>, int)> {
    if 0 <= i < s.len() {
        if s[i] == 0u8 {
            Some((None, i + 1))
        } else if s[i] == 1u8 {
            match dec_string(s, i + 1) {
                None => None,
                Some((v, j)) => Some((Some(v), j)),
            }
        } else {
            None
        }
    } else {
        None
    }
}

pub open spec fn dec_strings(s: Seq<u8>, i: int, count: nat) -> Option<(Seq<Seq<char>>, int)>
    decreases count,
{
    if count == 0 {
        Some((Seq::empty(), i))
    } else {
        match dec_string(s, i) {
            None => None,
            Some((v, j)) => match dec_strings(s, j, (count - 1) as nat) {
                None => None,
                Some((vs, k)) => Some((seq![v] + vs, k)),
            },
        }
    }
}

pub open spec fn dec_string_list(s: Seq<u8>, i: int) -> Option<(Seq<Seq<char>>, int)> {
    match dec_u64(s, i) {
        None => None,
        Some((n, j)) => dec_strings(s, j, n as nat),
    }
}

pub open spec fn dec_header(s: Seq<u8>, i: int) -> Option<((Seq<char>, Seq<char>), int)> {
    match dec_string(s, i) {
        None => None,
        Some((name, j)) => match dec_string(s, j) {
            None => None,
            Some((value, k)) => Some(((name, value), k)),
        },
    }
}

pub open spec fn dec_headers(s: Seq<u8>, i: int, count: nat) -> Option<
    (Seq<(Seq<char>, Seq<char>)>, int),
>
    decreases count,
{
    if count == 0 {
        Some((Seq::empty(), i))
    } else {
        match dec_header(s, i) {
            None => None,
            Some((h, j)) => match dec_headers(s, j, (count - 1) as nat) {
                None => None,
                Some((hs, k)) => Some((seq![h] + hs, k)),
            },
        }
    }
}

pub open spec fn dec_header_list(s: Seq<u8>, i: int) -> Option<(Seq<(Seq<char>, Seq<char>)>, int)> {
    match dec_u64(s, i) {
        None => None,
        Some((n, j)) => dec_headers(s, j, n as nat),
    }
}

pub open spec fn dec_attachment(s: Seq<u8>, i: int) -> Option<(AttachmentView, int)> {
    match dec_string(s, i) {
        None => None,
        Some((id, j1)) => match dec_string(s, j1) {
            None => None,
            Some((filename, j2)) => match dec_string(s, j2) {
                None => None,
                Some((content_type, j3)) => match dec_u64(s, j3) {
                    None => None,
                    Some((size, j4)) => if size <= usize::MAX {
                        match dec_bytes(s, j4) {
                            None => None,
                            Some((data, j5)) => Some(
                                (
                                    AttachmentView {
                                        id,
                                        filename,
                                        content_type,
                                        size: size as usize,
                                        data,
                                    },
                                    j5,
                                ),
                            ),
                        }
                    } else {
                        None
                    },
                },
            },
        },
    }
}

pub open spec fn dec_attachments(s: Seq<u8>, i: int, count: nat) -> Option<
    (Seq<AttachmentView>, int),
>
    decreases count,
{
    if count == 0 {
        Some((Seq::empty(), i))
    } else {
        match dec_attachment(s, i) {
            None => None,
            Some((a, j)) => match dec_attachments(s, j, (count - 1) as nat) {
                None => None,
                Some((vs, k)) => Some((seq![a] + vs, k)),
            },
        }
    }
}

pub open spec fn dec_attachment_list(s: Seq<u8>, i: int) -> Option<(Seq<AttachmentView>, int)> {
    match dec_u64(s, i) {
        None => None,
        Some((n, j)) => dec_attachments(s, j, n as nat),
    }
}

/// Decodes a whole message; the encoding must span the whole input.
pub open spec fn dec_email(s: Seq<u8>) -> Option<EmailView> {
    match dec_string(s, 0) {
        None => None,
        Some((id, p1)) => match dec_string(s, p1) {
            None => None,
            Some((subject, p2)) => match dec_string(s, p2) {
                None => None,
                Some((from, p3)) => match dec_opt_string(s, p3) {
                    None => None,
                    Some((from_name, p4)) => match dec_string_list(s, p4) {
                        None => None,
                        Some((to, p5)) => match dec_string_list(s, p5) {
                            None => None,
                            Some((cc, p6)) => match dec_string_list(s, p6) {
                                None => None,
                                Some((bcc, p7)) => match dec_opt_string(s, p7) {
                                    None => None,
                                    Some((body_text, p8)) => match dec_opt_string(s, p8) {
                                        None => None,
                                        Some((body_html, p9)) => match dec_u64(s, p9) {
                                            None => None,
                                            Some((date, p10)) => match dec_attachment_list(
                                                s,
                                                p10,
                                            ) {
                                                None => None,
                                                Some((attachments, p11)) => match dec_bool(
                                                    s,
                                                    p11,
                                                ) {
                                                    None => None,
                                                    Some((is_read, p12)) => match dec_bool(
                                                        s,
                                                        p12,
                                                    ) {
                                                        None => None,
                                                        Some((is_flagged, p13)) => match dec_header_list(
                                                            s,
                                                            p13,
                                                        ) {
                                                            None => None,
                                                            Some((headers, p14)) => match dec_string(
                                                                s,
                                                                p14,
                                                            ) {
                                                                None => None,
                                                                Some((account_id, p15)) => match dec_string(
                                                                    s,
                                                                    p15,
                                                                ) {
                                                                    None => None,
                                                                    Some((folder, p16)) => if p16
                                                                        == s.len() {
                                                                        Some(
                                                                            EmailView {
                                                                                id,
                                                                                subject,
                                                                                from,
                                                                                from_name,
                                                                                to,
                                                                                cc,
                                                                                bcc,
                                                                                body_text,
                                                                                body_html,
                                                                                date,
                                                                                attachments,
                                                                                is_read,
                                                                                is_flagged,
                                                                                headers,
                                                                                account_id,
                                                                                folder,
                                                                            },
                                                                        )
                                                                    } else {
                                                                        None
                                                                    },
                                                                },
                                                            },
                                                        },
                                                    },
                                                },
                                            },
                                        },
                                    },
                                },
                            },
                        },
                    },
                },
            },
        },
    }
}

// ---------------------------------------------------------------------------
// Each decoder reads back what the matching encoder wrote, wherever the
// encoding stands in a larger input.
// ---------------------------------------------------------------------------
proof fn lemma_dec_u64_at(s: Seq<u8>, i: int, x: u64)
    requires
        0 <= i,
        i + 8 <= s.len(),
        s.subrange(i, i + 8) == enc_u64(x),
    ensures
        dec_u64(s, i) == Some((x, i + 8)),
{
    lemma_auto_spec_u64_to_from_le_bytes();
}

proof fn lemma_dec_bytes_at(s: Seq<u8>, i: int, b: Seq<u8>)
    requires
        0 <= i,
        b.len() <= u64::MAX,
        i + 8 + b.len() <= s.len(),
        s.subrange(i, i + 8 + b.len()) == enc_bytes(b),
    ensures
        dec_bytes(s, i) == Some((b, i + 8 + b.len())),
{
    lemma_auto_spec_u64_to_from_le_bytes();
    let seg = s.subrange(i, i + 8 + b.len());
    assert(s.subrange(i, i + 8) =~= seg.subrange(0, 8));
    assert(seg.subrange(0, 8) =~= enc_u64(b.len() as u64));
    lemma_dec_u64_at(s, i, b.len() as u64);
    assert(s.subrange(i + 8, i + 8 + b.len()) =~= seg.subrange(8, 8 + b.len() as int));
    assert(seg.subrange(8, 8 + b.len() as int) =~= b);
}

proof fn lemma_dec_string_at(s: Seq<u8>, i: int, c: Seq<char>)
    requires
        0 <= i,
        str_fits(c),
        i + enc_string(c).len() <= s.len(),
        s.subrange(i, i + enc_string(c).len()) == enc_string(c),
    ensures
        dec_string(s, i) == Some((c, i + enc_string(c).len())),
{
    lemma_auto_spec_u64_to_from_le_bytes();
    let b = encode_utf8(c);
    lemma_dec_bytes_at(s, i, b);
    encode_utf8_valid_utf8(c);
    encode_utf8_decode_utf8(c);
}

proof fn lemma_dec_bool_at(s: Seq<u8>, i: int, b: bool)
    requires
        0 <= i,
        i + 1 <= s.len(),
        s.subrange(i, i + 1) == enc_bool(b),
    ensures
        dec_bool(s, i) == Some((b, i + 1)),
{
    assert(s[i] == enc_bool(b)[0]);
}

proof fn lemma_dec_opt_string_at(s: Seq<u8>, i: int, o: Option<Seq<char>>)
    requires
        0 <= i,
        opt_string_fits(o),
        i + enc_opt_string(o).len() <= s.len(),
        s.subrange(i, i + enc_opt_string(o).len()) == enc_opt_string(o),
    ensures
        dec_opt_string(s, i) == Some((o, i + enc_opt_string(o).len())),
{
    lemma_auto_spec_u64_to_from_le_bytes();
    let seg = s.subrange(i, i + enc_opt_string(o).len());
    assert(s[i] == seg[0]);
    match o {
        None => {},
        Some(c) => {
            assert(seg[0] == 1u8);
            assert(s.subrange(i + 1, i + 1 + enc_string(c).len()) =~= seg.subrange(
                1,
                1 + enc_string(c).len() as int,
            ));
            assert(seg.subrange(1, 1 + enc_string(c).len() as int) =~= enc_string(c));
            lemma_dec_string_at(s, i + 1, c);
        },
    }
}

proof fn lemma_dec_strings_at(s: Seq<u8>, i: int, v: Seq<Seq<char>>)
    requires
        0 <= i,
        forall|k: int| 0 <= k < v.len() ==> str_fits(#[trigger] v[k]),
        i + enc_strings(v).len() <= s.len(),
        s.subrange(i, i + enc_strings(v).len()) == enc_strings(v),
    ensures
        dec_strings(s, i, v.len() as nat) == Some((v, i + enc_strings(v).len())),
    decreases v.len(),
{
    if v.len() == 0 {
        assert(Seq::<Seq<char>>::empty() =~= v);
    } else {
        lemma_auto_spec_u64_to_from_le_bytes();
        let seg = s.subrange(i, i + enc_strings(v).len());
        let e0 = enc_string(v[0]);
        let rest = enc_strings(v.drop_first());
        assert(seg =~= e0 + rest);
        assert(s.subrange(i, i + e0.len() as int) =~= seg.subrange(0, e0.len() as int));
        assert(seg.subrange(0, e0.len() as int) =~= e0);
        lemma_dec_string_at(s, i, v[0]);
        assert(s.subrange(i + e0.len(), i + e0.len() + rest.len()) =~= seg.subrange(
            e0.len() as int,
            e0.len() + rest.len() as int,
        ));
        assert(seg.subrange(e0.len() as int, e0.len() + rest.len() as int) =~= rest);
        assert forall|k: int| 0 <= k < v.drop_first().len() implies str_fits(
            #[trigger] v.drop_first()[k],
        ) by {
            assert(v.drop_first()[k] == v[k + 1]);
        }
        lemma_dec_strings_at(s, i + e0.len(), v.drop_first());
        assert(seq![v[0]] + v.drop_first() =~= v);
    }
}

proof fn lemma_dec_string_list_at(s: Seq<u8>, i: int, v: Seq<Seq<char>>)
    requires
        0 <= i,
        string_list_fits(v),
        i + enc_string_list(v).len() <= s.len(),
        s.subrange(i, i + enc_string_list(v).len()) == enc_string_list(v),
    ensures
        dec_string_list(s, i) == Some((v, i + enc_string_list(v).len())),
{
    lemma_auto_spec_u64_to_from_le_bytes();
    let seg = s.subrange(i, i + enc_string_list(v).len());
    assert(s.subrange(i, i + 8) =~= seg.subrange(0, 8));
    assert(seg.subrange(0, 8) =~= enc_u64(v.len() as u64));
    lemma_dec_u64_at(s, i, v.len() as u64);
    let body = enc_strings(v);
    assert(s.subrange(i + 8, i + 8 + body.len()) =~= seg.subrange(8, 8 + body.len() as int));
    assert(seg.subrange(8, 8 + body.len() as int) =~= body);
    lemma_dec_strings_at(s, i + 8, v);
    assert((v.len() as u64) as nat == v.len());
}

proof fn lemma_dec_header_at(s: Seq<u8>, i: int, h: (Seq<char>, Seq<char>))
    requires
        0 <= i,
        str_fits(h.0),
        str_fits(h.1),
        i + enc_header(h).len() <= s.len(),
        s.subrange(i, i + enc_header(h).len()) == enc_header(h),
    ensures
        dec_header(s, i) == Some((h, i + enc_header(h).len())),
{
    lemma_auto_spec_u64_to_from_le_bytes();
    let seg = s.subrange(i, i + enc_header(h).len());
    let e0 = enc_string(h.0);
    let e1 = enc_string(h.1);
    assert(s.subrange(i, i + e0.len() as int) =~= seg.subrange(0, e0.len() as int));
    assert(seg.subrange(0, e0.len() as int) =~= e0);
    lemma_dec_string_at(s, i, h.0);
    assert(s.subrange(i + e0.len(), i + e0.len() + e1.len()) =~= seg.subrange(
        e0.len() as int,
        e0.len() + e1.len() as int,
    ));
    assert(seg.subrange(e0.len() as int, e0.len() + e1.len() as int) =~= e1);
    lemma_dec_string_at(s, i + e0.len(), h.1);
    assert((h.0, h.1) == h);
}

proof fn lemma_dec_headers_at(s: Seq<u8>, i: int, v: Seq<(Seq<char>, Seq<char>)>)
    requires
        0 <= i,
        forall|k: int| 0 <= k < v.len() ==> str_fits(#[trigger] v[k].0) && str_fits(v[k].1),
        i + enc_headers(v).len() <= s.len(),
        s.subrange(i, i + enc_headers(v).len()) == enc_headers(v),
    ensures
        dec_headers(s, i, v.len() as nat) == Some((v, i + enc_headers(v).len())),
    decreases v.len(),
{
    if v.len() == 0 {
        assert(Seq::<(Seq<char>, Seq<char>)>::empty() =~= v);
    } else {
        lemma_auto_spec_u64_to_from_le_bytes();
        let seg = s.subrange(i, i + enc_headers(v).len());
        let e0 = enc_header(v[0]);
        let rest = enc_headers(v.drop_first());
        assert(seg =~= e0 + rest);
        assert(s.subrange(i, i + e0.len() as int) =~= seg.subrange(0, e0.len() as int));
        assert(seg.subrange(0, e0.len() as int) =~= e0);
        lemma_dec_header_at(s, i, v[0]);
        assert(s.subrange(i + e0.len(), i + e0.len() + rest.len()) =~= seg.subrange(
            e0.len() as int,
            e0.len() + rest.len() as int,
        ));
        assert(seg.subrange(e0.len() as int, e0.len() + rest.len() as int) =~= rest);
        assert forall|k: int| 0 <= k < v.drop_first().len() implies str_fits(
            #[trigger] v.drop_first()[k].0,
        ) && str_fits(v.drop_first()[k].1) by {
            assert(v.drop_first()[k] == v[k + 1]);
        }
        lemma_dec_headers_at(s, i + e0.len(), v.drop_first());
        assert(seq![v[0]] + v.drop_first() =~= v);
    }
}

proof fn lemma_dec_header_list_at(s: Seq<u8>, i: int, v: Seq<(Seq<char>, Seq<char>)>)
    requires
        0 <= i,
        header_list_fits(v),
        i + enc_header_list(v).len() <= s.len(),
        s.subrange(i, i + enc_header_list(v).len()) == enc_header_list(v),
    ensures
        dec_header_list(s, i) == Some((v, i + enc_header_list(v).len())),
{
    lemma_auto_spec_u64_to_from_le_bytes();
    let seg = s.subrange(i, i + enc_header_list(v).len());
    assert(s.subrange(i, i + 8) =~= seg.subrange(0, 8));
    assert(seg.subrange(0, 8) =~= enc_u64(v.len() as u64));
    lemma_dec_u64_at(s, i, v.len() as u64);
    let body = enc_headers(v);
    assert(s.subrange(i + 8, i + 8 + body.len()) =~= seg.subrange(8, 8 + body.len() as int));
    assert(seg.subrange(8, 8 + body.len() as int) =~= body);
    lemma_dec_headers_at(s, i + 8, v);
    assert((v.len() as u64) as nat == v.len());
}

proof fn lemma_dec_attachment_at(s: Seq<u8>, i: int, a: AttachmentView)
    requires
        0 <= i,
        attachment_fits(a),
        i + enc_attachment(a).len() <= s.len(),
        s.subrange(i, i + enc_attachment(a).len()) == enc_attachment(a),
    ensures
        dec_attachment(s, i) == Some((a, i + enc_attachment(a).len())),
{
    let seg = s.subrange(i, i + enc_attachment(a).len());
    let e1 = enc_string(a.id);
    let e2 = enc_string(a.filename);
    let e3 = enc_string(a.content_type);
    let e4 = enc_u64(a.size as u64);
    let e5 = enc_bytes(a.data);
    lemma_auto_spec_u64_to_from_le_bytes();
    let p1 = e1.len() as int;
    let p2 = p1 + e2.len();
    let p3 = p2 + e3.len();
    let p4 = p3 + e4.len();
    let p5 = p4 + e5.len();
    assert(seg =~= e1 + e2 + e3 + e4 + e5);
    assert(s.subrange(i, i + p1) =~= seg.subrange(0, p1));
    assert(seg.subrange(0, p1) =~= e1);
    lemma_dec_string_at(s, i, a.id);
    assert(s.subrange(i + p1, i + p2) =~= seg.subrange(p1, p2));
    assert(seg.subrange(p1, p2) =~= e2);
    lemma_dec_string_at(s, i + p1, a.filename);
    assert(s.subrange(i + p2, i + p3) =~= seg.subrange(p2, p3));
    assert(seg.subrange(p2, p3) =~= e3);
    lemma_dec_string_at(s, i + p2, a.content_type);
    assert(s.subrange(i + p3, i + p4) =~= seg.subrange(p3, p4));
    assert(seg.subrange(p3, p4) =~= e4);
    lemma_dec_u64_at(s, i + p3, a.size as u64);
    assert(s.subrange(i + p4, i + p5) =~= seg.subrange(p4, p5));
    assert(seg.subrange(p4, p5) =~= e5);
    lemma_dec_bytes_at(s, i + p4, a.data);
    assert((AttachmentView {
        id: a.id,
        filename: a.filename,
        content_type: a.content_type,
        size: ((a.size as u64) as usize),
        data: a.data,
    }) == a);
}

proof fn lemma_dec_attachments_at(s: Seq<u8>, i: int, v: Seq<AttachmentView>)
    requires
        0 <= i,
        forall|k: int| 0 <= k < v.len() ==> attachment_fits(#[trigger] v[k]),
        i + enc_attachments(v).len() <= s.len(),
        s.subrange(i, i + enc_attachments(v).len()) == enc_attachments(v),
    ensures
        dec_attachments(s, i, v.len() as nat) == Some((v, i + enc_attachments(v).len())),
    decreases v.len(),
{
    if v.len() == 0 {
        assert(Seq::<AttachmentView>::empty() =~= v);
    } else {
        lemma_auto_spec_u64_to_from_le_bytes();
        let seg = s.subrange(i, i + enc_attachments(v).len());
        let e0 = enc_attachment(v[0]);
        let rest = enc_attachments(v.drop_first());
        assert(seg =~= e0 + rest);
        assert(s.subrange(i, i + e0.len() as int) =~= seg.subrange(0, e0.len() as int));
        assert(seg.subrange(0, e0.len() as int) =~= e0);
        lemma_dec_attachment_at(s, i, v[0]);
        assert(s.subrange(i + e0.len(), i + e0.len() + rest.len()) =~= seg.subrange(
            e0.len() as int,
            e0.len() + rest.len() as int,
        ));
        assert(seg.subrange(e0.len() as int, e0.len() + rest.len() as int) =~= rest);
        assert forall|k: int| 0 <= k < v.drop_first().len() implies attachment_fits(
            #[trigger] v.drop_first()[k],
        ) by {
            assert(v.drop_first()[k] == v[k + 1]);
        }
        lemma_dec_attachments_at(s, i + e0.len(), v.drop_first());
        assert(seq![v[0]] + v.drop_first() =~= v);
    }
}

proof fn lemma_dec_attachment_list_at(s: Seq<u8>, i: int, v: Seq<AttachmentView>)
    requires
        0 <= i,
        attachment_list_fits(v),
        i + enc_attachment_list(v).len() <= s.len(),
        s.subrange(i, i + enc_attachment_list(v).len()) == enc_attachment_list(v),
    ensures
        dec_attachment_list(s, i) == Some((v, i + enc_attachment_list(v).len())),
{
    lemma_auto_spec_u64_to_from_le_bytes();
    let seg = s.subrange(i, i + enc_attachment_list(v).len());
    assert(s.subrange(i, i + 8) =~= seg.subrange(0, 8));
    assert(seg.subrange(0, 8) =~= enc_u64(v.len() as u64));
    lemma_dec_u64_at(s, i, v.len() as u64);
    let body = enc_attachments(v);
    assert(s.subrange(i + 8, i + 8 + body.len()) =~= seg.subrange(8, 8 + body.len() as int));
    assert(seg.subrange(8, 8 + body.len() as int) =~= body);
    lemma_dec_attachments_at(s, i + 8, v);
    assert((v.len() as u64) as nat == v.len());
}

/// Decoding an encoded message yields the message back.
#[verifier::rlimit(100)]
#[verifier::spinoff_prover]
pub proof fn lemma_email_round_trip(v: EmailView)
    requires
        email_fits(v),
    ensures
        dec_email(enc_email(v)) == Some(v),
{
    lemma_auto_spec_u64_to_from_le_bytes();
    let s = enc_email(v);
    let e1 = enc_string(v.id);
    let e2 = enc_string(v.subject);
    let e3 = enc_string(v.from);
    let e4 = enc_opt_string(v.from_name);
    let e5 = enc_string_list(v.to);
    let e6 = enc_string_list(v.cc);
    let e7 = enc_string_list(v.bcc);
    let e8 = enc_opt_string(v.body_text);
    let e9 = enc_opt_string(v.body_html);
    let e10 = enc_u64(v.date);
    let e11 = enc_attachment_list(v.attachments);
    let e12 = enc_bool(v.is_read);
    let e13 = enc_bool(v.is_flagged);
    let e14 = enc_header_list(v.headers);
    let e15 = enc_string(v.account_id);
    let e16 = enc_string(v.folder);
    let p0 = 0int;
    let p1 = p0 + e1.len();
    let p2 = p1 + e2.len();
    let p3 = p2 + e3.len();
    let p4 = p3 + e4.len();
    let p5 = p4 + e5.len();
    let p6 = p5 + e6.len();
    let p7 = p6 + e7.len();
    let p8 = p7 + e8.len();
    let p9 = p8 + e9.len();
    let p10 = p9 + e10.len();
    let p11 = p10 + e11.len();
    let p12 = p11 + e12.len();
    let p13 = p12 + e13.len();
    let p14 = p13 + e14.len();
    let p15 = p14 + e15.len();
    let p16 = p15 + e16.len();
    let c1 = e1;
    let c2 = c1 + e2;
    let c3 = c2 + e3;
    let c4 = c3 + e4;
    let c5 = c4 + e5;
    let c6 = c5 + e6;
    let c7 = c6 + e7;
    let c8 = c7 + e8;
    let c9 = c8 + e9;
    let c10 = c9 + e10;
    let c11 = c10 + e11;
    let c12 = c11 + e12;
    let c13 = c12 + e13;
    let c14 = c13 + e14;
    let c15 = c14 + e15;
    let c16 = c15 + e16;
    assert(s == c16);
    assert(s.subrange(p0, p16) =~= c16);
    assert(s.subrange(p0, p15) =~= s.subrange(p0, p16).subrange(0, p15 - p0));
    assert(c16.subrange(0, p15 - p0) =~= c15);
    assert(s.subrange(p0, p14) =~= s.subrange(p0, p15).subrange(0, p14 - p0));
    assert(c15.subrange(0, p14 - p0) =~= c14);
    assert(s.subrange(p0, p13) =~= s.subrange(p0, p14).subrange(0, p13 - p0));
    assert(c14.subrange(0, p13 - p0) =~= c13);
    assert(s.subrange(p0, p12) =~= s.subrange(p0, p13).subrange(0, p12 - p0));
    assert(c13.subrange(0, p12 - p0) =~= c12);
    assert(s.subrange(p0, p11) =~= s.subrange(p0, p12).subrange(0, p11 - p0));
    assert(c12.subrange(0, p11 - p0) =~= c11);
    assert(s.subrange(p0, p10) =~= s.subrange(p0, p11).subrange(0, p10 - p0));
    assert(c11.subrange(0, p10 - p0) =~= c10);
    assert(s.subrange(p0, p9) =~= s.subrange(p0, p10).subrange(0, p9 - p0));
    assert(c10.subrange(0, p9 - p0) =~= c9);
    assert(s.subrange(p0, p8) =~= s.subrange(p0, p9).subrange(0, p8 - p0));
    assert(c9.subrange(0, p8 - p0) =~= c8);
    assert(s.subrange(p0, p7) =~= s.subrange(p0, p8).subrange(0, p7 - p0));
    assert(c8.subrange(0, p7 - p0) =~= c7);
    assert(s.subrange(p0, p6) =~= s.subrange(p0, p7).subrange(0, p6 - p0));
    assert(c7.subrange(0, p6 - p0) =~= c6);
    assert(s.subrange(p0, p5) =~= s.subrange(p0, p6).subrange(0, p5 - p0));
    assert(c6.subrange(0, p5 - p0) =~= c5);
    assert(s.subrange(p0, p4) =~= s.subrange(p0, p5).subrange(0, p4 - p0));
    assert(c5.subrange(0, p4 - p0) =~= c4);
    assert(s.subrange(p0, p3) =~= s.subrange(p0, p4).subrange(0, p3 - p0));
    assert(c4.subrange(0, p3 - p0) =~= c3);
    assert(s.subrange(p0, p2) =~= s.subrange(p0, p3).subrange(0, p2 - p0));
    assert(c3.subrange(0, p2 - p0) =~= c2);
    assert(s.subrange(p0, p1) =~= s.subrange(p0, p2).subrange(0, p1 - p0));
    assert(c2.subrange(0, p1 - p0) =~= c1);
    assert(s.subrange(p0, p1) == c1);
    assert(s.subrange(p1, p2) =~= s.subrange(p0, p2).subrange(p1 - p0, p2 - p0));
    assert(c2.subrange(p1 - p0, p2 - p0) =~= e2);
    assert(s.subrange(p1, p2) == e2);
    assert(s.subrange(p2, p3) =~= s.subrange(p0, p3).subrange(p2 - p0, p3 - p0));
    assert(c3.subrange(p2 - p0, p3 - p0) =~= e3);
    assert(s.subrange(p2, p3) == e3);
    assert(s.subrange(p3, p4) =~= s.subrange(p0, p4).subrange(p3 - p0, p4 - p0));
    assert(c4.subrange(p3 - p0, p4 - p0) =~= e4);
    assert(s.subrange(p3, p4) == e4);
    assert(s.subrange(p4, p5) =~= s.subrange(p0, p5).subrange(p4 - p0, p5 - p0));
    assert(c5.subrange(p4 - p0, p5 - p0) =~= e5);
    assert(s.subrange(p4, p5) == e5);
    assert(s.subrange(p5, p6) =~= s.subrange(p0, p6).subrange(p5 - p0, p6 - p0));
    assert(c6.subrange(p5 - p0, p6 - p0) =~= e6);
    assert(s.subrange(p5, p6) == e6);
    assert(s.subrange(p6, p7) =~= s.subrange(p0, p7).subrange(p6 - p0, p7 - p0));
    assert(c7.subrange(p6 - p0, p7 - p0) =~= e7);
    assert(s.subrange(p6, p7) == e7);
    assert(s.subrange(p7, p8) =~= s.subrange(p0, p8).subrange(p7 - p0, p8 - p0));
    assert(c8.subrange(p7 - p0, p8 - p0) =~= e8);
    assert(s.subrange(p7, p8) == e8);
    assert(s.subrange(p8, p9) =~= s.subrange(p0, p9).subrange(p8 - p0, p9 - p0));
    assert(c9.subrange(p8 - p0, p9 - p0) =~= e9);
    assert(s.subrange(p8, p9) == e9);
    assert(s.subrange(p9, p10) =~= s.subrange(p0, p10).subrange(p9 - p0, p10 - p0));
    assert(c10.subrange(p9 - p0, p10 - p0) =~= e10);
    assert(s.subrange(p9, p10) == e10);
    assert(s.subrange(p10, p11) =~= s.subrange(p0, p11).subrange(p10 - p0, p11 - p0));
    assert(c11.subrange(p10 - p0, p11 - p0) =~= e11);
    assert(s.subrange(p10, p11) == e11);
    assert(s.subrange(p11, p12) =~= s.subrange(p0, p12).subrange(p11 - p0, p12 - p0));
    assert(c12.subrange(p11 - p0, p12 - p0) =~= e12);
    assert(s.subrange(p11, p12) == e12);
    assert(s.subrange(p12, p13) =~= s.subrange(p0, p13).subrange(p12 - p0, p13 - p0));
    assert(c13.subrange(p12 - p0, p13 - p0) =~= e13);
    assert(s.subrange(p12, p13) == e13);
    assert(s.subrange(p13, p14) =~= s.subrange(p0, p14).subrange(p13 - p0, p14 - p0));
    assert(c14.subrange(p13 - p0, p14 - p0) =~= e14);
    assert(s.subrange(p13, p14) == e14);
    assert(s.subrange(p14, p15) =~= s.subrange(p0, p15).subrange(p14 - p0, p15 - p0));
    assert(c15.subrange(p14 - p0, p15 - p0) =~= e15);
    assert(s.subrange(p14, p15) == e15);
    assert(s.subrange(p15, p16) =~= s.subrange(p0, p16).subrange(p15 - p0, p16 - p0));
    assert(c16.subrange(p15 - p0, p16 - p0) =~= e16);
    assert(s.subrange(p15, p16) == e16);
    lemma_dec_string_at(s, p0, v.id);
    lemma_dec_string_at(s, p1, v.subject);
    lemma_dec_string_at(s, p2, v.from);
    lemma_dec_opt_string_at(s, p3, v.from_name);
    lemma_dec_string_list_at(s, p4, v.to);
    lemma_dec_string_list_at(s, p5, v.cc);
    lemma_dec_string_list_at(s, p6, v.bcc);
    lemma_dec_opt_string_at(s, p7, v.body_text);
    lemma_dec_opt_string_at(s, p8, v.body_html);
    lemma_dec_u64_at(s, p9, v.date);
    lemma_dec_attachment_list_at(s, p10, v.attachments);
    lemma_dec_bool_at(s, p11, v.is_read);
    lemma_dec_bool_at(s, p12, v.is_flagged);
    lemma_dec_header_list_at(s, p13, v.headers);
    lemma_dec_string_at(s, p14, v.account_id);
    lemma_dec_string_at(s, p15, v.folder);
    assert((EmailView {
        id: v.id,
        subject: v.subject,
        from: v.from,
        from_name: v.from_name,
        to: v.to,
        cc: v.cc,
        bcc: v.bcc,
        body_text: v.body_text,
        body_html: v.body_html,
        date: v.date,
        attachments: v.attachments,
        is_read: v.is_read,
        is_flagged: v.is_flagged,
        headers: v.headers,
        account_id: v.account_id,
        folder: v.folder,
    }) == v);
}


// ---------------------------------------------------------------------------
// Appending an element to a list appends its encoding.
// ---------------------------------------------------------------------------
proof fn lemma_enc_strings_push(v: Seq<Seq<char>>, x: Seq<char>)
    ensures
        enc_strings(v.push(x)) == enc_strings(v) + enc_string(x),
    decreases v.len(),
{
    if v.len() == 0 {
        assert(v.push(x)[0] == x);
        assert(v.push(x).drop_first() =~= Seq::<Seq<char>>::empty());
        assert(enc_strings(Seq::<Seq<char>>::empty()) == Seq::<u8>::empty());
        assert(enc_strings(v.push(x)) == enc_string(x) + Seq::<u8>::empty());
        assert(enc_strings(v) + enc_string(x) =~= enc_string(x) + Seq::<u8>::empty());
    } else {
        assert(v.push(x)[0] == v[0]);
        assert(v.push(x).drop_first() =~= v.drop_first().push(x));
        lemma_enc_strings_push(v.drop_first(), x);
        assert((enc_string(v[0]) + enc_strings(v.drop_first())) + enc_string(x) =~= enc_string(
            v[0],
        ) + (enc_strings(v.drop_first()) + enc_string(x)));
    }
}

proof fn lemma_enc_headers_push(v: Seq<(Seq<char>, Seq<char>)>, x: (Seq<char>, Seq<char>))
    ensures
        enc_headers(v.push(x)) == enc_headers(v) + enc_header(x),
    decreases v.len(),
{
    if v.len() == 0 {
        assert(v.push(x)[0] == x);
        assert(v.push(x).drop_first() =~= Seq::<(Seq<char>, Seq<char>)>::empty());
        assert(enc_headers(Seq::<(Seq<char>, Seq<char>)>::empty()) == Seq::<u8>::empty());
        assert(enc_headers(v.push(x)) == enc_header(x) + Seq::<u8>::empty());
        assert(enc_headers(v) + enc_header(x) =~= enc_header(x) + Seq::<u8>::empty());
    } else {
        assert(v.push(x)[0] == v[0]);
        assert(v.push(x).drop_first() =~= v.drop_first().push(x));
        lemma_enc_headers_push(v.drop_first(), x);
        assert((enc_header(v[0]) + enc_headers(v.drop_first())) + enc_header(x) =~= enc_header(
            v[0],
        ) + (enc_headers(v.drop_first()) + enc_header(x)));
    }
}

proof fn lemma_enc_attachments_push(v: Seq<AttachmentView>, x: AttachmentView)
    ensures
        enc_attachments(v.push(x)) == enc_attachments(v) + enc_attachment(x),
    decreases v.len(),
{
    if v.len() == 0 {
        assert(v.push(x)[0] == x);
        assert(v.push(x).drop_first() =~= Seq::<AttachmentView>::empty());
        assert(enc_attachments(Seq::<AttachmentView>::empty()) == Seq::<u8>::empty());
        assert(enc_attachments(v.push(x)) == enc_attachment(x) + Seq::<u8>::empty());
        assert(enc_attachments(v) + enc_attachment(x) =~= enc_attachment(x) + Seq::<u8>::empty());
    } else {
        assert(v.push(x)[0] == v[0]);
        assert(v.push(x).drop_first() =~= v.drop_first().push(x));
        lemma_enc_attachments_push(v.drop_first(), x);
        assert((enc_attachment(v[0]) + enc_attachments(v.drop_first())) + enc_attachment(x)
            =~= enc_attachment(v[0]) + (enc_attachments(v.drop_first()) + enc_attachment(x)));
    }
}

// ---------------------------------------------------------------------------
// Executable encoding.
// ---------------------------------------------------------------------------
fn push_u64(out: &mut Vec<u8>, x: u64)
    ensures
        final(out)@ == old(out)@ + enc_u64(x),
{
    let mut b = u64_to_le_bytes(x);
    out.append(&mut b);
}

fn push_byte_vec(out: &mut Vec<u8>, b: &Vec<u8>)
    ensures
        final(out)@ == old(out)@ + enc_bytes(b@),
        b@.len() <= u64::MAX,
{
    push_u64(out, b.len() as u64);
    let mut data = crate::email::copy_bytes(b);
    out.append(&mut data);
    proof {
        assert(out@ =~= old(out)@ + enc_bytes(b@));
    }
}

fn push_string(out: &mut Vec<u8>, s: &str)
    ensures
        final(out)@ == old(out)@ + enc_string(s@),
        str_fits(s@),
{
    let b = s.as_bytes_vec();
    push_u64(out, b.len() as u64);
    let mut data = b;
    out.append(&mut data);
    proof {
        assert(out@ =~= old(out)@ + enc_string(s@));
    }
}

fn push_bool(out: &mut Vec<u8>, b: bool)
    ensures
        final(out)@ == old(out)@ + enc_bool(b),
{
    if b {
        out.push(1);
    } else {
        out.push(0);
    }
    proof {
        assert(out@ =~= old(out)@ + enc_bool(b));
    }
}

fn push_opt_string(out: &mut Vec<u8>, o: &Option<String>)
    ensures
        final(out)@ == old(out)@ + enc_opt_string(
            match *o {
                Some(s) => Some(s@),
                None => None,
            },
        ),
        opt_string_fits(
            match *o {
                Some(s) => Some(s@),
                None => None,
            },
        ),
{
    match o {
        None => {
            out.push(0);
            proof {
                assert(out@ =~= old(out)@ + enc_opt_string(None));
            }
        },
        Some(s) => {
            let ghost before = out@;
            out.push(1);
            push_string(out, s.as_str());
            proof {
                assert(before + seq![1u8] + enc_string(s@) =~= before + (seq![1u8] + enc_string(
                    s@,
                )));
                assert(out@ =~= before + enc_opt_string(Some(s@)));
            }
        },
    }
}

fn push_string_list(out: &mut Vec<u8>, v: &Vec<String>)
    ensures
        final(out)@ == old(out)@ + enc_string_list(v.deep_view()),
        string_list_fits(v.deep_view()),
{
    let ghost base = out@;
    push_u64(out, v.len() as u64);
    let n = v.len();
    let mut i: usize = 0;
    proof {
        assert(v.deep_view().len() == n);
        assert(enc_strings(v.deep_view().take(0)) =~= Seq::<u8>::empty());
        assert(out@ =~= base + enc_u64(n as u64) + enc_strings(v.deep_view().take(0)));
    }
    while i < n
        invariant
            i <= n,
            n == v@.len(),
            v.deep_view().len() == n,
            out@ == base + enc_u64(n as u64) + enc_strings(v.deep_view().take(i as int)),
            forall|j: int| 0 <= j < i ==> str_fits(#[trigger] v.deep_view()[j]),
        decreases n - i,
    {
        push_string(out, v[i].as_str());
        proof {
            assert(v.deep_view().take(i as int).push(v.deep_view()[i as int]) =~= v.deep_view().take(
                i as int + 1,
            ));
            assert(v.deep_view()[i as int] == v@[i as int]@);
            lemma_enc_strings_push(v.deep_view().take(i as int), v.deep_view()[i as int]);
            assert(out@ =~= base + enc_u64(n as u64) + enc_strings(
                v.deep_view().take(i as int + 1),
            ));
        }
        i = i + 1;
    }
    proof {
        assert(v.deep_view().take(n as int) =~= v.deep_view());
        assert(base + enc_u64(n as u64) + enc_strings(v.deep_view()) =~= base + enc_string_list(
            v.deep_view(),
        ));
    }
}

fn push_headers(out: &mut Vec<u8>, v: &Vec<(String, String)>)
    ensures
        final(out)@ == old(out)@ + enc_header_list(v.deep_view()),
        header_list_fits(v.deep_view()),
{
    let ghost base = out@;
    push_u64(out, v.len() as u64);
    let n = v.len();
    let mut i: usize = 0;
    proof {
        assert(v.deep_view().len() == n);
        assert(enc_headers(v.deep_view().take(0)) =~= Seq::<u8>::empty());
        assert(out@ =~= base + enc_u64(n as u64) + enc_headers(v.deep_view().take(0)));
    }
    while i < n
        invariant
            i <= n,
            n == v@.len(),
            v.deep_view().len() == n,
            out@ == base + enc_u64(n as u64) + enc_headers(v.deep_view().take(i as int)),
            forall|j: int|
                0 <= j < i ==> (str_fits((#[trigger] v.deep_view()[j]).0) && str_fits(
                    v.deep_view()[j].1,
                )),
        decreases n - i,
    {
        let ghost mid = out@;
        let pair = &v[i];
        push_string(out, pair.0.as_str());
        push_string(out, pair.1.as_str());
        proof {
            let h = v.deep_view()[i as int];
            assert(h == (v@[i as int].0@, v@[i as int].1@));
            assert(str_fits(v.deep_view()[i as int].0));
            assert(str_fits(v.deep_view()[i as int].1));
            assert(mid + enc_string(h.0) + enc_string(h.1) =~= mid + enc_header(h));
            assert(v.deep_view().take(i as int).push(h) =~= v.deep_view().take(i as int + 1));
            lemma_enc_headers_push(v.deep_view().take(i as int), h);
            assert(out@ =~= base + enc_u64(n as u64) + enc_headers(
                v.deep_view().take(i as int + 1),
            ));
        }
        i = i + 1;
    }
    proof {
        assert(v.deep_view().take(n as int) =~= v.deep_view());
        assert(base + enc_u64(n as u64) + enc_headers(v.deep_view()) =~= base + enc_header_list(
            v.deep_view(),
        ));
    }
}

fn push_attachment(out: &mut Vec<u8>, a: &Attachment)
    ensures
        final(out)@ == old(out)@ + enc_attachment(a@),
        attachment_fits(a@),
{
    let ghost base = out@;
    push_string(out, a.id.as_str());
    push_string(out, a.filename.as_str());
    push_string(out, a.content_type.as_str());
    push_u64(out, a.size as u64);
    push_byte_vec(out, &a.data);
    proof {
        assert(out@ =~= base + enc_attachment(a@));
    }
}

fn push_attachments(out: &mut Vec<u8>, v: &Vec<Attachment>)
    ensures
        final(out)@ == old(out)@ + enc_attachment_list(
            Seq::new(v@.len(), |i: int| v@[i]@),
        ),
        attachment_list_fits(Seq::new(v@.len(), |i: int| v@[i]@)),
{
    let ghost views = Seq::new(v@.len(), |i: int| v@[i]@);
    let ghost base = out@;
    push_u64(out, v.len() as u64);
    let n = v.len();
    let mut i: usize = 0;
    proof {
        assert(enc_attachments(views.take(0)) =~= Seq::<u8>::empty());
        assert(out@ =~= base + enc_u64(n as u64) + enc_attachments(views.take(0)));
    }
    while i < n
        invariant
            i <= n,
            n == v@.len(),
            views == Seq::new(v@.len(), |k: int| v@[k]@),
            views.len() == n,
            out@ == base + enc_u64(n as u64) + enc_attachments(views.take(i as int)),
            forall|j: int| 0 <= j < i ==> attachment_fits(#[trigger] views[j]),
        decreases n - i,
    {
        push_attachment(out, &v[i]);
        proof {
            assert(views[i as int] == v@[i as int]@);
            assert(views.take(i as int).push(views[i as int]) =~= views.take(i as int + 1));
            lemma_enc_attachments_push(views.take(i as int), views[i as int]);
            assert(out@ =~= base + enc_u64(n as u64) + enc_attachments(views.take(i as int + 1)));
        }
        i = i + 1;
    }
    proof {
        assert(views.take(n as int) =~= views);
        assert(base + enc_u64(n as u64) + enc_attachments(views) =~= base + enc_attachment_list(
            views,
        ));
    }
}

/// Encodes a message into the cache's byte form.
pub fn encode_email(e: &Email) -> (r: Vec<u8>)
    ensures
        r@ == enc_email(e@),
        email_fits(e@),
{
    let mut out: Vec<u8> = Vec::new();
    push_string(&mut out, e.id.as_str());
    push_string(&mut out, e.subject.as_str());
    push_string(&mut out, e.from.as_str());
    push_opt_string(&mut out, &e.from_name);
    push_string_list(&mut out, &e.to);
    push_string_list(&mut out, &e.cc);
    push_string_list(&mut out, &e.bcc);
    push_opt_string(&mut out, &e.body_text);
    push_opt_string(&mut out, &e.body_html);
    push_u64(&mut out, e.date);
    push_attachments(&mut out, &e.attachments);
    push_bool(&mut out, e.is_read);
    push_bool(&mut out, e.is_flagged);
    push_headers(&mut out, &e.headers);
    push_string(&mut out, e.account_id.as_str());
    push_string(&mut out, e.folder.as_str());
    proof {
        assert(out@ =~= enc_email(e@));
    }
    out
}

// ---------------------------------------------------------------------------
// Executable decoding, against the decoder functions above.
// ---------------------------------------------------------------------------
fn read_u64(input: &[u8], pos: usize) -> (r: Option<(u64, usize)>)
    ensures
        r is Some <==> dec_u64(input@, pos as int) is Some,
        r matches Some(p) ==> dec_u64(input@, pos as int) == Some((p.0, p.1 as int)),
{
    if input.len() >= 8 && pos <= input.len() - 8 {
        let s8 = slice_subrange(input, pos, pos + 8);
        Some((u64_from_le_bytes(s8), pos + 8))
    } else {
        None
    }
}

fn read_bytes(input: &[u8], pos: usize) -> (r: Option<(Vec<u8>, usize)>)
    ensures
        r is Some <==> dec_bytes(input@, pos as int) is Some,
        r matches Some(p) ==> dec_bytes(input@, pos as int) matches Some(q) && p.0@ == q.0 && p.1
            == q.1,
{
    match read_u64(input, pos) {
        None => None,
        Some((n, j)) => {
            if n <= (input.len() - j) as u64 {
                let end = j + n as usize;
                Some((crate::text::copy_range(input, j, end), end))
            } else {
                None
            }
        },
    }
}

fn read_string(input: &[u8], pos: usize) -> (r: Option<(String, usize)>)
    ensures
        r is Some <==> dec_string(input@, pos as int) is Some,
        r matches Some(p) ==> dec_string(input@, pos as int) matches Some(q) && p.0@ == q.0 && p.1
            == q.1,
{
    match read_bytes(input, pos) {
        None => None,
        Some((b, j)) => {
            let ghost bytes = b@;
            match string_from_utf8(b) {
                None => None,
                Some(s) => Some((s, j)),
            }
        },
    }
}

fn read_bool(input: &[u8], pos: usize) -> (r: Option<(bool, usize)>)
    ensures
        r is Some <==> dec_bool(input@, pos as int) is Some,
        r matches Some(p) ==> dec_bool(input@, pos as int) == Some((p.0, p.1 as int)),
{
    if pos < input.len() {
        let b = *vstd::slice::slice_index_get(input, pos);
        if b == 0 {
            Some((false, pos + 1))
        } else if b == 1 {
            Some((true, pos + 1))
        } else {
            None
        }
    } else {
        None
    }
}

fn read_opt_string(input: &[u8], pos: usize) -> (r: Option<(Option<String>, usize)>)
    ensures
        r is Some <==> dec_opt_string(input@, pos as int) is Some,
        r matches Some(p) ==> dec_opt_string(input@, pos as int) matches Some(q) && (match p.0 {
            None => q.0 is None,
            Some(s) => q.0 matches Some(c) && s@ == c,
        }) && p.1 == q.1,
{
    if pos < input.len() {
        let b = *vstd::slice::slice_index_get(input, pos);
        if b == 0 {
            Some((None, pos + 1))
        } else if b == 1 {
            match read_string(input, pos + 1) {
                None => None,
                Some((s, j)) => Some((Some(s), j)),
            }
        } else {
            None
        }
    } else {
        None
    }
}

fn read_string_list(input: &[u8], pos: usize) -> (r: Option<(Vec<String>, usize)>)
    ensures
        r is Some <==> dec_string_list(input@, pos as int) is Some,
        r matches Some(p) ==> dec_string_list(input@, pos as int) matches Some(q) && p.0.deep_view()
            == q.0 && p.1 == q.1,
{
    let (count, start) = match read_u64(input, pos) {
        None => {
            return None;
        },
        Some(p) => p,
    };
    let mut items: Vec<String> = Vec::new();
    let mut cur: usize = start;
    let mut k: u64 = 0;
    proof {
        assert(items.deep_view() =~= Seq::<Seq<char>>::empty());
    }
    while k < count
        invariant
            0 <= k <= count,
            cur <= input@.len(),
            dec_u64(input@, pos as int) == Some((count, start as int)),
            ({
                let rest = dec_strings(input@, cur as int, (count - k) as nat);
                match rest {
                    None => dec_strings(input@, start as int, count as nat) is None,
                    Some((vs, j)) => dec_strings(input@, start as int, count as nat) == Some(
                        (items.deep_view() + vs, j),
                    ),
                }
            }),
        decreases count - k,
    {
        let ghost items_before = items.deep_view();
        match read_string(input, cur) {
            None => {
                proof {
                    assert(dec_strings(input@, cur as int, (count - k) as nat) is None);
                }
                return None;
            },
            Some((s, j)) => {
                proof {
                    let c = dec_string(input@, cur as int)->Some_0;
                    assert(s@ == c.0 && j == c.1);
                }
                items.push(s);
                proof {
                    assert(items.deep_view() =~~= items_before + seq![dec_string(
                        input@,
                        cur as int,
                    )->Some_0.0]);
                    match dec_strings(input@, j as int, (count - k - 1) as nat) {
                        None => {},
                        Some((vs, m)) => {
                            assert((items_before + seq![dec_string(input@, cur as int)->Some_0.0])
                                + vs =~= items_before + (seq![dec_string(
                                input@,
                                cur as int,
                            )->Some_0.0] + vs));
                        },
                    }
                }
                cur = j;
                k = k + 1;
            },
        }
    }
    proof {
        assert(dec_strings(input@, cur as int, 0) == Some((Seq::<Seq<char>>::empty(), cur as int)));
        assert(items.deep_view() + Seq::<Seq<char>>::empty() =~= items.deep_view());
    }
    Some((items, cur))
}

fn read_header_list(input: &[u8], pos: usize) -> (r: Option<(Vec<(String, String)>, usize)>)
    ensures
        r is Some <==> dec_header_list(input@, pos as int) is Some,
        r matches Some(p) ==> dec_header_list(input@, pos as int) matches Some(q) && p.0.deep_view()
            == q.0 && p.1 == q.1,
{
    let (count, start) = match read_u64(input, pos) {
        None => {
            return None;
        },
        Some(p) => p,
    };
    let mut items: Vec<(String, String)> = Vec::new();
    let mut cur: usize = start;
    let mut k: u64 = 0;
    proof {
        assert(items.deep_view() =~= Seq::<(Seq<char>, Seq<char>)>::empty());
    }
    while k < count
        invariant
            0 <= k <= count,
            cur <= input@.len(),
            dec_u64(input@, pos as int) == Some((count, start as int)),
            ({
                let rest = dec_headers(input@, cur as int, (count - k) as nat);
                match rest {
                    None => dec_headers(input@, start as int, count as nat) is None,
                    Some((vs, j)) => dec_headers(input@, start as int, count as nat) == Some(
                        (items.deep_view() + vs, j),
                    ),
                }
            }),
        decreases count - k,
    {
        let ghost items_before = items.deep_view();
        let (name, mid) = match read_string(input, cur) {
            None => {
                proof {
                    assert(dec_header(input@, cur as int) is None);
                    assert(dec_headers(input@, cur as int, (count - k) as nat) is None);
                }
                return None;
            },
            Some(p) => p,
        };
        let (value, j) = match read_string(input, mid) {
            None => {
                proof {
                    assert(dec_header(input@, cur as int) is None);
                    assert(dec_headers(input@, cur as int, (count - k) as nat) is None);
                }
                return None;
            },
            Some(p) => p,
        };
        proof {
            let h = dec_header(input@, cur as int)->Some_0;
            assert(name@ == h.0.0 && value@ == h.0.1 && j == h.1);
        }
        items.push((name, value));
        proof {
            assert(items.deep_view() =~~= items_before + seq![dec_header(
                input@,
                cur as int,
            )->Some_0.0]);
            match dec_headers(input@, j as int, (count - k - 1) as nat) {
                None => {},
                Some((vs, m)) => {
                    assert((items_before + seq![dec_header(input@, cur as int)->Some_0.0]) + vs
                        =~= items_before + (seq![dec_header(input@, cur as int)->Some_0.0] + vs));
                },
            }
        }
        cur = j;
        k = k + 1;
    }
    proof {
        assert(dec_headers(input@, cur as int, 0) == Some(
            (Seq::<(Seq<char>, Seq<char>)>::empty(), cur as int),
        ));
        assert(items.deep_view() + Seq::<(Seq<char>, Seq<char>)>::empty() =~= items.deep_view());
    }
    Some((items, cur))
}

fn read_attachment(input: &[u8], pos: usize) -> (r: Option<(Attachment, usize)>)
    ensures
        r is Some <==> dec_attachment(input@, pos as int) is Some,
        r matches Some(p) ==> dec_attachment(input@, pos as int) matches Some(q) && p.0@ == q.0
            && p.1 == q.1,
{
    let (id, p1) = match read_string(input, pos) {
        None => {
            return None;
        },
        Some(p) => p,
    };
    let (filename, p2) = match read_string(input, p1) {
        None => {
            return None;
        },
        Some(p) => p,
    };
    let (content_type, p3) = match read_string(input, p2) {
        None => {
            return None;
        },
        Some(p) => p,
    };
    let (size64, p4) = match read_u64(input, p3) {
        None => {
            return None;
        },
        Some(p) => p,
    };
    if size64 > usize::MAX as u64 {
        return None;
    }
    let (data, p5) = match read_bytes(input, p4) {
        None => {
            return None;
        },
        Some(p) => p,
    };
    Some(
        (
            Attachment { id, filename, content_type, size: size64 as usize, data },
            p5,
        ),
    )
}

fn read_attachment_list(input: &[u8], pos: usize) -> (r: Option<(Vec<Attachment>, usize)>)
    ensures
        r is Some <==> dec_attachment_list(input@, pos as int) is Some,
        r matches Some(p) ==> dec_attachment_list(input@, pos as int) matches Some(q) && Seq::new(
            p.0@.len(),
            |i: int| p.0@[i]@,
        ) == q.0 && p.1 == q.1,
{
    let (count, start) = match read_u64(input, pos) {
        None => {
            return None;
        },
        Some(p) => p,
    };
    let mut items: Vec<Attachment> = Vec::new();
    let mut cur: usize = start;
    let mut k: u64 = 0;
    proof {
        assert(Seq::new(items@.len(), |i: int| items@[i]@) =~= Seq::<AttachmentView>::empty());
    }
    while k < count
        invariant
            0 <= k <= count,
            cur <= input@.len(),
            dec_u64(input@, pos as int) == Some((count, start as int)),
            ({
                let rest = dec_attachments(input@, cur as int, (count - k) as nat);
                let got = Seq::new(items@.len(), |i: int| items@[i]@);
                match rest {
                    None => dec_attachments(input@, start as int, count as nat) is None,
                    Some((vs, j)) => dec_attachments(input@, start as int, count as nat) == Some(
                        (got + vs, j),
                    ),
                }
            }),
        decreases count - k,
    {
        let ghost items_before = Seq::new(items@.len(), |i: int| items@[i]@);
        match read_attachment(input, cur) {
            None => {
                proof {
                    assert(dec_attachments(input@, cur as int, (count - k) as nat) is None);
                }
                return None;
            },
            Some((a, j)) => {
                items.push(a);
                proof {
                    assert(Seq::new(items@.len(), |i: int| items@[i]@) =~= items_before + seq![
                        dec_attachment(input@, cur as int)->Some_0.0,
                    ]);
                    match dec_attachments(input@, j as int, (count - k - 1) as nat) {
                        None => {},
                        Some((vs, m)) => {
                            assert((items_before + seq![dec_attachment(
                                input@,
                                cur as int,
                            )->Some_0.0]) + vs =~= items_before + (seq![dec_attachment(
                                input@,
                                cur as int,
                            )->Some_0.0] + vs));
                        },
                    }
                }
                cur = j;
                k = k + 1;
            },
        }
    }
    proof {
        assert(dec_attachments(input@, cur as int, 0) == Some(
            (Seq::<AttachmentView>::empty(), cur as int),
        ));
        assert(Seq::new(items@.len(), |i: int| items@[i]@) + Seq::<AttachmentView>::empty()
            =~= Seq::new(items@.len(), |i: int| items@[i]@));
    }
    Some((items, cur))
}

/// Decodes a message from the cache's byte form. Succeeds exactly when the
/// bytes are a whole, well-formed encoding.
pub fn decode_email(input: &[u8]) -> (r: Option<Email>)
    ensures
        r is Some <==> dec_email(input@) is Some,
        r matches Some(e) ==> dec_email(input@) == Some(e@),
{
    let (id, p1) = match read_string(input, 0) {
        None => {
            return None;
        },
        Some(p) => p,
    };
    let (subject, p2) = match read_string(input, p1) {
        None => {
            return None;
        },
        Some(p) => p,
    };
    let (from, p3) = match read_string(input, p2) {
        None => {
            return None;
        },
        Some(p) => p,
    };
    let (from_name, p4) = match read_opt_string(input, p3) {
        None => {
            return None;
        },
        Some(p) => p,
    };
    let (to, p5) = match read_string_list(input, p4) {
        None => {
            return None;
        },
        Some(p) => p,
    };
    let (cc, p6) = match read_string_list(input, p5) {
        None => {
            return None;
        },
        Some(p) => p,
    };
    let (bcc, p7) = match read_string_list(input, p6) {
        None => {
            return None;
        },
        Some(p) => p,
    };
    let (body_text, p8) = match read_opt_string(input, p7) {
        None => {
            return None;
        },
        Some(p) => p,
    };
    let (body_html, p9) = match read_opt_string(input, p8) {
        None => {
            return None;
        },
        Some(p) => p,
    };
    let (date, p10) = match read_u64(input, p9) {
        None => {
            return None;
        },
        Some(p) => p,
    };
    let (attachments, p11) = match read_attachment_list(input, p10) {
        None => {
            return None;
        },
        Some(p) => p,
    };
    let (is_read, p12) = match read_bool(input, p11) {
        None => {
            return None;
        },
        Some(p) => p,
    };
    let (is_flagged, p13) = match read_bool(input, p12) {
        None => {
            return None;
        },
        Some(p) => p,
    };
    let (headers, p14) = match read_header_list(input, p13) {
        None => {
            return None;
        },
        Some(p) => p,
    };
    let (account_id, p15) = match read_string(input, p14) {
        None => {
            return None;
        },
        Some(p) => p,
    };
    let (folder, p16) = match read_string(input, p15) {
        None => {
            return None;
        },
        Some(p) => p,
    };
    if p16 != input.len() {
        return None;
    }
    let e = Email {
        id,
        subject,
        from,
        from_name,
        to,
        cc,
        bcc,
        body_text,
        body_html,
        date,
        attachments,
        is_read,
        is_flagged,
        headers,
        account_id,
        folder,
    };
    proof {
        assert(dec_email(input@) == Some(e@));
    }
    Some(e)
}

} // verus!
