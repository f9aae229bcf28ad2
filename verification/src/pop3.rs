//! The hand-rolled line-oriented retrieval protocol: command encoding,
//! single-line and multi-line response framing (with byte-stuffing), the
//! status-query reply, and the connect handshake state machine.
//!
//! Everything here is pure: functions consume bytes already received and
//! produce bytes to send or parsed values. The transport that moves the bytes
//! lives outside the library.

use crate::errors::ProtocolError;
use crate::text::{copy_range, is_dec_byte, parse_dec_u64, spec_dec_bytes, spec_dec_value, u64_dec_bytes};
use vstd::prelude::*;
use vstd::slice::slice_index_get;
use vstd::string::StringSliceAdditionalSpecFns;
use vstd::string::StrSliceExecFns;

verus! {

/// The protocol line terminator.
pub open spec fn crlf() -> Seq<u8> {
    seq![13u8, 10u8]
}

/// Position of the first occurrence of `b`, if any.
pub open spec fn spec_find(s: Seq<u8>, b: u8) -> Option<int>
    decreases s.len(),
{
    if s.len() == 0 {
        None
    } else if s[0] == b {
        Some(0int)
    } else {
        match spec_find(s.drop_first(), b) {
            None => None,
            Some(i) => Some(i + 1),
        }
    }
}

proof fn lemma_find_some(s: Seq<u8>, b: u8, i: int)
    requires
        0 <= i < s.len(),
        s[i] == b,
        forall|j: int| 0 <= j < i ==> s[j] != b,
    ensures
        spec_find(s, b) == Some(i),
    decreases i,
{
    if i > 0 {
        assert(s[0] != b);
        let t = s.drop_first();
        assert forall|j: int| 0 <= j < i - 1 implies t[j] != b by {
            assert(t[j] == s[j + 1]);
        }
        assert(t[i - 1] == s[i]);
        lemma_find_some(t, b, i - 1);
    }
}

proof fn lemma_find_none(s: Seq<u8>, b: u8)
    requires
        forall|j: int| 0 <= j < s.len() ==> s[j] != b,
    ensures
        spec_find(s, b) is None,
    decreases s.len(),
{
    if s.len() > 0 {
        let t = s.drop_first();
        assert forall|j: int| 0 <= j < t.len() implies t[j] != b by {
            assert(t[j] == s[j + 1]);
        }
        lemma_find_none(t, b);
    }
}

/// Scans `input[from..]` for the byte `b`.
pub fn find_byte(input: &[u8], from: usize, b: u8) -> (r: Option<usize>)
    requires
        from <= input@.len(),
    ensures
        r matches Some(j) ==> from <= j < input@.len() && input@[j as int] == b && (forall|k: int|
            from <= k < j ==> input@[k] != b) && spec_find(input@.skip(from as int), b) == Some(
            j - from,
        ),
        r is None ==> (forall|k: int| from <= k < input@.len() ==> input@[k] != b) && spec_find(
            input@.skip(from as int),
            b,
        ) is None,
{
    let mut i: usize = from;
    while i < input.len()
        invariant
            from <= i <= input@.len(),
            forall|k: int| from <= k < i ==> input@[k] != b,
        decreases input@.len() - i,
    {
        if *slice_index_get(input, i) == b {
            proof {
                let t = input@.skip(from as int);
                assert(t[i - from] == input@[i as int]);
                assert forall|j: int| 0 <= j < i - from implies t[j] != b by {
                    assert(t[j] == input@[from + j]);
                }
                lemma_find_some(t, b, i - from);
            }
            return Some(i);
        }
        i = i + 1;
    }
    proof {
        let t = input@.skip(from as int);
        assert forall|j: int| 0 <= j < t.len() implies t[j] != b by {
            assert(t[j] == input@[from + j]);
        }
        lemma_find_none(t, b);
    }
    None
}

/// A line as handed to callers: the bytes before the terminator, with a
/// trailing carriage return removed.
pub open spec fn spec_strip_cr(l: Seq<u8>) -> Seq<u8> {
    if l.len() > 0 && l.last() == 13u8 {
        l.drop_last()
    } else {
        l
    }
}

/// Reads one line from the head of `s`: the stripped line and how many bytes
/// it consumed, or nothing when no full line has arrived yet.
pub open spec fn spec_read_line(s: Seq<u8>) -> Option<(Seq<u8>, int)> {
    match spec_find(s, 10u8) {
        None => None,
        Some(i) => Some((spec_strip_cr(s.take(i)), i + 1)),
    }
}

/// Reads one single-line reply from the head of `input`: the line without its
/// terminator, and the number of bytes consumed. Nothing when `input` does not
/// yet hold a complete line.
pub fn read_response(input: &[u8]) -> (r: Option<(Vec<u8>, usize)>)
    ensures
        r is Some <==> spec_read_line(input@) is Some,
        r matches Some(p) ==> spec_read_line(input@) matches Some(q) && p.0@ == q.0 && p.1 == q.1,
{
    let n = input.len();
    proof {
        assert(input@.skip(0) =~= input@);
    }
    match find_byte(input, 0, 10) {
        None => None,
        Some(j) => {
            proof {
                assert(input@.len() == n);
            }
            let end: usize = if j > 0 && *slice_index_get(input, j - 1) == 13 {
                j - 1
            } else {
                j
            };
            let line = copy_range(input, 0, end);
            proof {
                let s = input@;
                assert(s.skip(0) =~= s);
                let taken = s.take(j as int);
                if j > 0 && s[j as int - 1] == 13 {
                    assert(taken.last() == s[j as int - 1]);
                    assert(spec_strip_cr(taken) =~= s.subrange(0, end as int));
                } else {
                    if taken.len() > 0 && taken.last() == 13u8 {
                        assert(s[j as int - 1] == 13);
                    }
                    assert(spec_strip_cr(taken) =~= s.subrange(0, end as int));
                }
            }
            Some((line, j + 1))
        },
    }
}

/// Undoes byte-stuffing: a line beginning with a doubled sentinel loses
/// exactly one leading character.
pub open spec fn spec_unstuff(l: Seq<u8>) -> Seq<u8> {
    if l.len() >= 2 && l[0] == 46u8 && l[1] == 46u8 {
        l.drop_first()
    } else {
        l
    }
}

/// The sentinel line that terminates a multi-line response.
pub open spec fn sentinel_line() -> Seq<u8> {
    seq![46u8]
}

/// Parses a complete multi-line response from the head of `s`: the ordered
/// content lines (unstuffed, excluding the sentinel line) and the bytes
/// consumed up to and including the sentinel line. Nothing when `s` does not
/// yet hold the sentinel.
pub open spec fn spec_multiline(s: Seq<u8>) -> Option<(Seq<Seq<u8>>, int)>
    decreases s.len(),
{
    match spec_find(s, 10u8) {
        None => None,
        Some(i) => {
            if 0 <= i < s.len() {
                let line = spec_strip_cr(s.take(i));
                if line == sentinel_line() {
                    Some((Seq::empty(), i + 1))
                } else {
                    match spec_multiline(s.skip(i + 1)) {
                        None => None,
                        Some((ls, m)) => Some((seq![spec_unstuff(line)] + ls, i + 1 + m)),
                    }
                }
            } else {
                None
            }
        },
    }
}

/// Reads a multi-line response from the head of `input`: terminates exactly at
/// the first line equal to the sentinel, removes one leading character from
/// every line that begins with a doubled sentinel, and returns the content
/// lines in order, excluding the sentinel line, together with the bytes
/// consumed. Nothing when the sentinel line has not arrived yet.
pub fn read_multiline_response(input: &[u8]) -> (r: Option<(Vec<Vec<u8>>, usize)>)
    ensures
        r is Some <==> spec_multiline(input@) is Some,
        r matches Some(p) ==> spec_multiline(input@) matches Some(q) && p.0.deep_view() == q.0
            && p.1 == q.1,
{
    let n = input.len();
    let mut pos: usize = 0;
    let mut lines: Vec<Vec<u8>> = Vec::new();
    proof {
        assert(input@.skip(0) =~= input@);
        assert(lines.deep_view() =~= Seq::<Seq<u8>>::empty());
        match spec_multiline(input@) {
            None => {},
            Some(q) => {
                assert(lines.deep_view() + q.0 =~= q.0);
            },
        }
    }
    loop
        invariant
            pos <= input@.len(),
            input@.len() == n,
            ({
                let rest = spec_multiline(input@.skip(pos as int));
                match rest {
                    None => spec_multiline(input@) is None,
                    Some((ls, m)) => spec_multiline(input@) matches Some(q) && q.0
                        == lines.deep_view() + ls && q.1 == pos + m,
                }
            }),
        decreases input@.len() - pos,
    {
        let ghost s = input@.skip(pos as int);
        match find_byte(input, pos, 10) {
            None => {
                return None;
            },
            Some(j) => {
                let end: usize = if j > pos && *slice_index_get(input, j - 1) == 13 {
                    j - 1
                } else {
                    j
                };
                proof {
                    let taken = s.take(j - pos as int);
                    assert forall|k: int| 0 <= k < j - pos as int implies taken[k] == input@[pos
                        + k] by {}
                    if j > pos && input@[j as int - 1] == 13 {
                        assert(taken.last() == input@[j as int - 1]);
                        assert(spec_strip_cr(taken) =~= input@.subrange(pos as int, end as int));
                    } else {
                        if taken.len() > 0 && taken.last() == 13u8 {
                            assert(input@[j as int - 1] == 13);
                        }
                        assert(spec_strip_cr(taken) =~= input@.subrange(pos as int, end as int));
                    }
                }
                let is_sentinel = end == pos + 1 && *slice_index_get(input, pos) == 46;
                proof {
                    let line = input@.subrange(pos as int, end as int);
                    if is_sentinel {
                        assert(line =~= sentinel_line());
                    } else {
                        if line == sentinel_line() {
                            assert(line.len() == 1 && line[0] == 46u8);
                            assert(input@[pos as int] == 46);
                            assert(false);
                        }
                    }
                }
                let ghost line = input@.subrange(pos as int, end as int);
                proof {
                    assert(spec_find(s, 10u8) == Some(j - pos as int));
                    assert(spec_strip_cr(s.take(j - pos as int)) == line);
                }
                if is_sentinel {
                    proof {
                        assert(spec_multiline(s) == Some((Seq::<Seq<u8>>::empty(), j - pos + 1)));
                        let q = spec_multiline(input@)->Some_0;
                        assert(q.0 =~= lines.deep_view());
                    }
                    return Some((lines, j + 1));
                }
                let stuffed = end - pos >= 2 && *slice_index_get(input, pos) == 46
                    && *slice_index_get(input, pos + 1) == 46;
                let start: usize = if stuffed {
                    pos + 1
                } else {
                    pos
                };
                proof {
                    assert(spec_unstuff(line) =~= input@.subrange(start as int, end as int));
                }
                let content = copy_range(input, start, end);
                let ghost lines_before = lines.deep_view();
                lines.push(content);
                proof {
                    assert(content.deep_view() =~= content@);
                    assert(lines.deep_view() =~~= lines_before + seq![spec_unstuff(line)]);
                }
                proof {
                    let tail = input@.skip(j as int + 1);
                    assert(s.skip(j - pos as int + 1) =~= tail);
                    match spec_multiline(tail) {
                        None => {
                            assert(spec_multiline(s) is None);
                        },
                        Some((ls, m)) => {
                            assert(spec_multiline(s) == Some(
                                (seq![spec_unstuff(line)] + ls, (j - pos as int + 1) + m),
                            ));
                            let q = spec_multiline(input@)->Some_0;
                            assert(q.0 == lines_before + (seq![spec_unstuff(line)] + ls));
                            assert((lines_before + seq![spec_unstuff(line)]) + ls =~= lines_before
                                + (seq![spec_unstuff(line)] + ls));
                        },
                    }
                }
                pos = j + 1;
            },
        }
    }
}

/// A content line that can stand on the wire: it holds no line feed, and
/// does not end in a carriage return (the terminator strip would swallow it).
pub open spec fn line_wire_safe(l: Seq<u8>) -> bool {
    &&& (forall|i: int| 0 <= i < l.len() ==> l[i] != 10u8)
    &&& (l.len() > 0 ==> l.last() != 13u8)
}

/// Byte-stuffing on the sending side: a line beginning with the sentinel
/// character gains one more leading sentinel character.
pub open spec fn spec_stuff(l: Seq<u8>) -> Seq<u8> {
    if l.len() >= 1 && l[0] == 46u8 {
        seq![46u8] + l
    } else {
        l
    }
}

/// The wire form of a whole multi-line response: each content line stuffed
/// and terminated, then the sentinel line.
pub open spec fn spec_encode_multiline(lines: Seq<Seq<u8>>) -> Seq<u8>
    decreases lines.len(),
{
    if lines.len() == 0 {
        sentinel_line() + crlf()
    } else {
        spec_stuff(lines[0]) + crlf() + spec_encode_multiline(lines.drop_first())
    }
}

/// The byte-stuffing law at every position: parsing an encoded multi-line
/// response yields exactly the content lines — every stuffed line loses
/// exactly one leading sentinel character, every other line comes back
/// verbatim with only its terminator stripped — terminates exactly at the
/// sentinel line, and consumes exactly the encoding, whatever bytes follow.
pub proof fn lemma_multiline_round_trip(lines: Seq<Seq<u8>>, rest: Seq<u8>)
    requires
        forall|i: int| 0 <= i < lines.len() ==> line_wire_safe(#[trigger] lines[i]),
    ensures
        spec_multiline(spec_encode_multiline(lines) + rest) == Some(
            (lines, spec_encode_multiline(lines).len() as int),
        ),
    decreases lines.len(),
{
    let enc = spec_encode_multiline(lines);
    let s = enc + rest;
    if lines.len() == 0 {
        assert(s[0] == 46u8 && s[1] == 13u8 && s[2] == 10u8);
        assert forall|j: int| 0 <= j < 2 implies s[j] != 10u8 by {}
        lemma_find_some(s, 10u8, 2);
        let taken = s.take(2);
        assert(taken =~= seq![46u8, 13u8]);
        assert(spec_strip_cr(taken) =~= sentinel_line());
        assert(lines =~= Seq::<Seq<u8>>::empty());
    } else {
        let l0 = lines[0];
        let st = spec_stuff(l0);
        let tail_enc = spec_encode_multiline(lines.drop_first());
        assert(enc =~= st + crlf() + tail_enc);
        let p = st.len() as int;
        assert forall|j: int| 0 <= j < p + 1 implies s[j] != 10u8 by {
            if j < p {
                assert(s[j] == st[j]);
                if l0.len() >= 1 && l0[0] == 46u8 {
                    if j == 0 {
                        assert(st[j] == 46u8);
                    } else {
                        assert(st[j] == l0[j - 1]);
                    }
                } else {
                    assert(st[j] == l0[j]);
                }
            } else {
                assert(s[j] == 13u8);
            }
        }
        assert(s[p + 1] == 10u8);
        lemma_find_some(s, 10u8, p + 1);
        let taken = s.take(p + 1);
        assert(taken =~= st + seq![13u8]);
        assert(taken.last() == 13u8);
        assert(spec_strip_cr(taken) =~= st);
        // the stuffed line is never the sentinel line
        if st == sentinel_line() {
            assert(st.len() == 1 && st[0] == 46u8);
            if l0.len() >= 1 && l0[0] == 46u8 {
                assert(st.len() == l0.len() + 1);
                assert(l0.len() == 0);
                assert(false);
            } else {
                assert(l0[0] == 46u8);
                assert(false);
            }
        }
        // unstuffing gives the content line back
        if l0.len() >= 1 && l0[0] == 46u8 {
            assert(st[0] == 46u8 && st[1] == l0[0]);
            assert(spec_unstuff(st) =~= l0);
        } else {
            if st.len() >= 2 && st[0] == 46u8 && st[1] == 46u8 {
                assert(l0[0] == 46u8);
                assert(false);
            }
            assert(spec_unstuff(st) == l0);
        }
        assert forall|i: int|
            0 <= i < lines.drop_first().len() implies line_wire_safe(
            #[trigger] lines.drop_first()[i],
        ) by {
            assert(lines.drop_first()[i] == lines[i + 1]);
        }
        lemma_multiline_round_trip(lines.drop_first(), rest);
        assert(s.skip(p + 2) =~= tail_enc + rest);
        assert(seq![spec_unstuff(st)] + lines.drop_first() =~= lines);
    }
}

/// Whether a reply line begins with the positive-status token `+OK`.
pub open spec fn spec_is_positive(l: Seq<u8>) -> bool {
    l.len() >= 3 && l[0] == 43u8 && l[1] == 79u8 && l[2] == 75u8
}

/// Tests a reply line for the positive-status token.
pub fn is_positive_response(line: &[u8]) -> (r: bool)
    ensures
        r == spec_is_positive(line@),
{
    line.len() >= 3 && *slice_index_get(line, 0) == 43 && *slice_index_get(line, 1) == 79
        && *slice_index_get(line, 2) == 75
}

/// The space-separated fields of a reply line, in order, each nonempty.
pub open spec fn spec_fields(s: Seq<u8>) -> Seq<Seq<u8>>
    decreases s.len(),
{
    if s.len() == 0 {
        Seq::empty()
    } else if s[0] == 32u8 {
        spec_fields(s.drop_first())
    } else {
        match spec_find(s, 32u8) {
            None => seq![s],
            Some(i) => if 0 < i < s.len() {
                seq![s.take(i)] + spec_fields(s.skip(i))
            } else {
                seq![s]
            },
        }
    }
}

/// Splits a reply line into its space-separated fields.
pub fn split_fields(line: &[u8]) -> (r: Vec<Vec<u8>>)
    ensures
        r.deep_view() == spec_fields(line@),
{
    let n = line.len();
    let mut pos: usize = 0;
    let mut fields: Vec<Vec<u8>> = Vec::new();
    proof {
        assert(line@.skip(0) =~= line@);
        assert(fields.deep_view() =~= Seq::<Seq<u8>>::empty());
        match spec_fields(line@) {
            _ => {
                assert(fields.deep_view() + spec_fields(line@) =~= spec_fields(line@));
            },
        }
    }
    while pos < n
        invariant
            pos <= n,
            line@.len() == n,
            spec_fields(line@) == fields.deep_view() + spec_fields(line@.skip(pos as int)),
        decreases n - pos,
    {
        let ghost s = line@.skip(pos as int);
        if *slice_index_get(line, pos) == 32 {
            proof {
                assert(s.drop_first() =~= line@.skip(pos as int + 1));
            }
            pos = pos + 1;
        } else {
            let end: usize = match find_byte(line, pos, 32) {
                None => n,
                Some(j) => j,
            };
            let tok = copy_range(line, pos, end);
            let ghost fields_before = fields.deep_view();
            fields.push(tok);
            proof {
                assert(tok.deep_view() =~= tok@);
                assert(fields.deep_view() =~~= fields_before + seq![line@.subrange(
                    pos as int,
                    end as int,
                )]);
                if end < n {
                    assert(spec_find(s, 32u8) == Some(end - pos as int));
                    assert(s.take(end - pos as int) =~= line@.subrange(pos as int, end as int));
                    assert(s.skip(end - pos as int) =~= line@.skip(end as int));
                    assert(spec_fields(s) == seq![line@.subrange(pos as int, end as int)]
                        + spec_fields(line@.skip(end as int)));
                } else {
                    assert(spec_find(s, 32u8) is None);
                    assert(s =~= line@.subrange(pos as int, end as int));
                    assert(spec_fields(s) == seq![line@.subrange(pos as int, end as int)]);
                    assert(line@.skip(end as int).len() == 0);
                    assert(spec_fields(line@.skip(end as int)) =~= Seq::<Seq<u8>>::empty());
                }
                assert((fields_before + seq![line@.subrange(pos as int, end as int)])
                    + spec_fields(line@.skip(end as int)) =~= fields_before + (seq![
                    line@.subrange(pos as int, end as int),
                ] + spec_fields(line@.skip(end as int))));
            }
            pos = end;
        }
    }
    proof {
        assert(line@.skip(pos as int).len() == 0);
        assert(fields.deep_view() + spec_fields(line@.skip(pos as int)) =~= fields.deep_view());
    }
    fields
}

/// The message count reported by a status-query reply: present exactly when
/// the line is positive-status and its second field is a decimal number that
/// fits in a machine word.
pub open spec fn spec_stat_count(l: Seq<u8>) -> Option<u64> {
    let fs = spec_fields(l);
    if spec_is_positive(l) && fs.len() >= 3 && fs[1].len() > 0 && (forall|i: int|
        0 <= i < fs[1].len() ==> is_dec_byte(#[trigger] fs[1][i])) && spec_dec_value(fs[1])
        <= u64::MAX {
        Some(spec_dec_value(fs[1]) as u64)
    } else {
        None
    }
}

/// Parses the message count out of a status-query reply line.
pub fn parse_stat_response(line: &[u8]) -> (r: Option<u64>)
    ensures
        r == spec_stat_count(line@),
{
    if !is_positive_response(line) {
        return None;
    }
    let fields = split_fields(line);
    if fields.len() < 3 {
        return None;
    }
    proof {
        assert(fields.deep_view()[1] == fields@[1].deep_view());
        assert(fields@[1].deep_view() =~= fields@[1]@);
    }
    parse_dec_u64(fields[1].as_slice())
}

/// The first message number a fetch retrieves.
pub open spec fn spec_fetch_first(count: u64, limit: u64) -> u64 {
    if limit > 0 && count > limit {
        (count - limit + 1) as u64
    } else {
        1u64
    }
}

/// The last message number a fetch retrieves; below the first when nothing is
/// to be fetched.
pub open spec fn spec_fetch_last(count: u64, limit: u64) -> u64 {
    if limit == 0 {
        0u64
    } else {
        count
    }
}

/// Which message numbers a fetch retrieves: the most recent `limit` of
/// `count` messages. Numbers are one-based; the plan is the inclusive range
/// `r.0 ..= r.1`, empty when the mailbox is empty or the limit is zero.
pub fn fetch_plan(count: u64, limit: u64) -> (r: (u64, u64))
    ensures
        r == (spec_fetch_first(count, limit), spec_fetch_last(count, limit)),
        limit == 0 ==> r == (1u64, 0u64),
        limit > 0 ==> r.1 == count,
        limit > 0 && count > limit ==> r.0 == count - limit + 1,
        limit > 0 && count <= limit ==> r.0 == 1,
{
    if limit == 0 {
        (1, 0)
    } else if count > limit {
        (count - limit + 1, count)
    } else {
        (1, count)
    }
}

/// The retrieval commands a fetch issues, in order: one for each planned
/// message number and none besides — a message outside the plan is never
/// fetched.
pub fn retr_commands(count: u64, limit: u64) -> (r: Vec<Vec<u8>>)
    ensures
        r@.len() == (if spec_fetch_first(count, limit) <= spec_fetch_last(count, limit) {
            spec_fetch_last(count, limit) - spec_fetch_first(count, limit) + 1
        } else {
            0int
        }),
        forall|i: int|
            0 <= i < r@.len() ==> (#[trigger] r@[i])@ == spec_command_wire(
                retr_prefix() + spec_dec_bytes((spec_fetch_first(count, limit) + i) as nat),
            ),
{
    let (first, last) = fetch_plan(count, limit);
    let mut out: Vec<Vec<u8>> = Vec::new();
    if first > last {
        return out;
    }
    let len = last - first + 1;
    let mut i: u64 = 0;
    while i < len
        invariant
            0 <= i <= len,
            first == spec_fetch_first(count, limit),
            last == spec_fetch_last(count, limit),
            first <= last,
            len == last - first + 1,
            out@.len() == i,
            forall|j: int|
                0 <= j < i ==> (#[trigger] out@[j])@ == spec_command_wire(
                    retr_prefix() + spec_dec_bytes((first + j) as nat),
                ),
        decreases len - i,
    {
        out.push(retr_command(first + i));
        i = i + 1;
    }
    out
}

/// The wire form of a command: its text followed by the line terminator.
pub open spec fn spec_command_wire(cmd: Seq<u8>) -> Seq<u8> {
    cmd + crlf()
}

/// Appends the line terminator to a command.
pub fn encode_command(cmd: &[u8]) -> (r: Vec<u8>)
    ensures
        r@ == spec_command_wire(cmd@),
{
    let mut v = copy_range(cmd, 0, cmd.len());
    v.push(13);
    v.push(10);
    proof {
        assert(v@ =~= spec_command_wire(cmd@));
    }
    v
}

/// `USER `, `PASS `, `RETR `, `DELE ` as bytes.
pub open spec fn user_prefix() -> Seq<u8> {
    seq![85u8, 83u8, 69u8, 82u8, 32u8]
}

pub open spec fn pass_prefix() -> Seq<u8> {
    seq![80u8, 65u8, 83u8, 83u8, 32u8]
}

pub open spec fn retr_prefix() -> Seq<u8> {
    seq![82u8, 69u8, 84u8, 82u8, 32u8]
}

pub open spec fn dele_prefix() -> Seq<u8> {
    seq![68u8, 69u8, 76u8, 69u8, 32u8]
}

/// `STAT` and `QUIT` as bytes.
pub open spec fn stat_bytes() -> Seq<u8> {
    seq![83u8, 84u8, 65u8, 84u8]
}

pub open spec fn quit_bytes() -> Seq<u8> {
    seq![81u8, 85u8, 73u8, 84u8]
}

/// The identity exchange command for the given user name, in wire form.
pub fn user_command(name: &str) -> (r: Vec<u8>)
    ensures
        r@ == spec_command_wire(user_prefix() + name.spec_bytes()),
{
    let mut v: Vec<u8> = Vec::new();
    v.push(85);
    v.push(83);
    v.push(69);
    v.push(82);
    v.push(32);
    let mut b = name.as_bytes_vec();
    v.append(&mut b);
    proof {
        assert(v@ =~= user_prefix() + name.spec_bytes());
    }
    encode_command(v.as_slice())
}

/// The secret exchange command for the given secret, in wire form.
pub fn pass_command(secret: &str) -> (r: Vec<u8>)
    ensures
        r@ == spec_command_wire(pass_prefix() + secret.spec_bytes()),
{
    let mut v: Vec<u8> = Vec::new();
    v.push(80);
    v.push(65);
    v.push(83);
    v.push(83);
    v.push(32);
    let mut b = secret.as_bytes_vec();
    v.append(&mut b);
    proof {
        assert(v@ =~= pass_prefix() + secret.spec_bytes());
    }
    encode_command(v.as_slice())
}

/// The status-query command, in wire form.
pub fn stat_command() -> (r: Vec<u8>)
    ensures
        r@ == spec_command_wire(stat_bytes()),
{
    let mut v: Vec<u8> = Vec::new();
    v.push(83);
    v.push(84);
    v.push(65);
    v.push(84);
    proof {
        assert(v@ =~= stat_bytes());
    }
    encode_command(v.as_slice())
}

/// `NOOP` as bytes.
pub open spec fn noop_bytes() -> Seq<u8> {
    seq![78u8, 79u8, 79u8, 80u8]
}

/// The liveness-probe command, in wire form: it asks the server for nothing
/// but a positive reply.
pub fn noop_command() -> (r: Vec<u8>)
    ensures
        r@ == spec_command_wire(noop_bytes()),
{
    let mut v: Vec<u8> = Vec::new();
    v.push(78);
    v.push(79);
    v.push(79);
    v.push(80);
    proof {
        assert(v@ =~= noop_bytes());
    }
    encode_command(v.as_slice())
}

/// The session-end command, in wire form.
pub fn quit_command() -> (r: Vec<u8>)
    ensures
        r@ == spec_command_wire(quit_bytes()),
{
    let mut v: Vec<u8> = Vec::new();
    v.push(81);
    v.push(85);
    v.push(73);
    v.push(84);
    proof {
        assert(v@ =~= quit_bytes());
    }
    encode_command(v.as_slice())
}

/// The retrieval command for message number `n`, in wire form.
pub fn retr_command(n: u64) -> (r: Vec<u8>)
    ensures
        r@ == spec_command_wire(retr_prefix() + spec_dec_bytes(n as nat)),
{
    let mut v: Vec<u8> = Vec::new();
    v.push(82);
    v.push(69);
    v.push(84);
    v.push(82);
    v.push(32);
    let mut b = u64_dec_bytes(n);
    v.append(&mut b);
    proof {
        assert(v@ =~= retr_prefix() + spec_dec_bytes(n as nat));
    }
    encode_command(v.as_slice())
}

/// The deletion command for message number `n`, in wire form.
pub fn dele_command(n: u64) -> (r: Vec<u8>)
    ensures
        r@ == spec_command_wire(dele_prefix() + spec_dec_bytes(n as nat)),
{
    let mut v: Vec<u8> = Vec::new();
    v.push(68);
    v.push(69);
    v.push(76);
    v.push(69);
    v.push(32);
    let mut b = u64_dec_bytes(n);
    v.append(&mut b);
    proof {
        assert(v@ =~= dele_prefix() + spec_dec_bytes(n as nat));
    }
    encode_command(v.as_slice())
}

/// Where the connect handshake stands: which reply the session waits for next.
#[derive(Clone, Copy, PartialEq, Eq, Structural, Debug)]
pub enum ConnectStage {
    /// Waiting for the server greeting.
    AwaitGreeting,
    /// Identity sent; waiting for its acknowledgement.
    AwaitUserOk,
    /// Secret sent; waiting for its acknowledgement.
    AwaitPassOk,
    /// Status query sent; waiting for the count reply.
    AwaitStatOk,
    /// Handshake complete.
    Ready,
}

/// What the caller must send next after feeding a reply line to the handshake.
#[derive(Clone, Copy, PartialEq, Eq, Structural, Debug)]
pub enum ConnectAction {
    SendUser,
    SendPass,
    SendStat,
    Done,
}

/// The connect handshake of the line protocol: greeting, identity, secret,
/// then a status query whose reported message count is kept for the caller.
pub struct Pop3Handshake {
    /// Which reply the handshake waits for next.
    pub stage: ConnectStage,
    /// The message count reported by the status reply, once parsed.
    pub message_count: Option<u64>,
}

impl Pop3Handshake {
    /// Starts a handshake that waits for the server greeting.
    pub fn new() -> (r: Pop3Handshake)
        ensures
            r.stage == ConnectStage::AwaitGreeting,
            r.message_count is None,
    {
        Pop3Handshake { stage: ConnectStage::AwaitGreeting, message_count: None }
    }

    /// Feeds one reply line to the handshake. A non-positive greeting fails
    /// with `BadGreeting`; a rejected identity or secret fails with
    /// `AuthFailed`; a rejected status query fails with `Rejected`. On the
    /// status reply the reported count is parsed and kept; a count the reply
    /// does not carry in well-formed shape leaves the count unset, as the
    /// session can still be used.
    pub fn step(&mut self, line: &[u8]) -> (r: Result<ConnectAction, ProtocolError>)
        ensures
            old(self).stage == ConnectStage::AwaitGreeting ==> if spec_is_positive(line@) {
                r == Ok::<ConnectAction, ProtocolError>(ConnectAction::SendUser) && final(self).stage == ConnectStage::AwaitUserOk
            } else {
                r matches Err(ProtocolError::BadGreeting(l)) && l@ == line@ && *final(self) == *old(self)
            },
            old(self).stage == ConnectStage::AwaitUserOk ==> if spec_is_positive(line@) {
                r == Ok::<ConnectAction, ProtocolError>(ConnectAction::SendPass) && final(self).stage == ConnectStage::AwaitPassOk
            } else {
                r matches Err(ProtocolError::AuthFailed(l)) && l@ == line@ && *final(self) == *old(self)
            },
            old(self).stage == ConnectStage::AwaitPassOk ==> if spec_is_positive(line@) {
                r == Ok::<ConnectAction, ProtocolError>(ConnectAction::SendStat) && final(self).stage == ConnectStage::AwaitStatOk
            } else {
                r matches Err(ProtocolError::AuthFailed(l)) && l@ == line@ && *final(self) == *old(self)
            },
            old(self).stage == ConnectStage::AwaitStatOk ==> if spec_is_positive(line@) {
                r == Ok::<ConnectAction, ProtocolError>(ConnectAction::Done) && final(self).stage
                    == ConnectStage::Ready && final(self).message_count == spec_stat_count(line@)
            } else {
                r matches Err(ProtocolError::Rejected(l)) && l@ == line@ && *final(self) == *old(self)
            },
            old(self).stage == ConnectStage::Ready ==> r == Ok::<ConnectAction, ProtocolError>(
                ConnectAction::Done,
            ) && *final(self) == *old(self),
            final(self).stage != ConnectStage::Ready ==> final(self).message_count == old(self).message_count,
    {
        let positive = is_positive_response(line);
        match self.stage {
            ConnectStage::AwaitGreeting => {
                if positive {
                    self.stage = ConnectStage::AwaitUserOk;
                    Ok(ConnectAction::SendUser)
                } else {
                    Err(ProtocolError::BadGreeting(copy_range(line, 0, line.len())))
                }
            },
            ConnectStage::AwaitUserOk => {
                if positive {
                    self.stage = ConnectStage::AwaitPassOk;
                    Ok(ConnectAction::SendPass)
                } else {
                    Err(ProtocolError::AuthFailed(copy_range(line, 0, line.len())))
                }
            },
            ConnectStage::AwaitPassOk => {
                if positive {
                    self.stage = ConnectStage::AwaitStatOk;
                    Ok(ConnectAction::SendStat)
                } else {
                    Err(ProtocolError::AuthFailed(copy_range(line, 0, line.len())))
                }
            },
            ConnectStage::AwaitStatOk => {
                if positive {
                    self.stage = ConnectStage::Ready;
                    self.message_count = parse_stat_response(line);
                    Ok(ConnectAction::Done)
                } else {
                    Err(ProtocolError::Rejected(copy_range(line, 0, line.len())))
                }
            },
            ConnectStage::Ready => Ok(ConnectAction::Done),
        }
    }
}

} // verus!
