//! Small text utilities shared across the crate: decimal rendering and
//! parsing, and conversions between ASCII byte sequences and strings.

use vstd::prelude::*;
use vstd::utf8::{
    decode_utf8, encode_utf8, encode_utf8_decode_utf8, encode_utf8_valid_utf8, is_ascii_chars,
    is_ascii_chars_encode_utf8, valid_utf8,
};

verus! {

/// The decimal digit bytes of `n`, most significant first.
pub open spec fn spec_dec_bytes(n: nat) -> Seq<u8>
    decreases n,
{
    if n < 10 {
        seq![(48 + n) as u8]
    } else {
        spec_dec_bytes(n / 10).push((48 + n % 10) as u8)
    }
}

/// The decimal digit characters of `n`, most significant first.
pub open spec fn spec_dec_chars(n: nat) -> Seq<char> {
    spec_dec_bytes(n).map_values(|b: u8| b as char)
}

/// Renders `n` in decimal as ASCII bytes.
pub fn u64_dec_bytes(n: u64) -> (r: Vec<u8>)
    ensures
        r@ == spec_dec_bytes(n as nat),
    decreases n,
{
    if n < 10 {
        let mut v: Vec<u8> = Vec::new();
        v.push(48 + n as u8);
        v
    } else {
        let mut v = u64_dec_bytes(n / 10);
        v.push(48 + (n % 10) as u8);
        v
    }
}

/// Every decimal digit byte is ASCII.
pub proof fn lemma_dec_bytes_ascii(n: nat)
    ensures
        forall|i: int| 0 <= i < spec_dec_bytes(n).len() ==> 48 <= #[trigger] spec_dec_bytes(n)[i]
            <= 57,
    decreases n,
{
    if n >= 10 {
        lemma_dec_bytes_ascii(n / 10);
        assert forall|i: int| 0 <= i < spec_dec_bytes(n).len() implies 48 <= #[trigger] spec_dec_bytes(
            n,
        )[i] <= 57 by {
            if i < spec_dec_bytes(n / 10).len() {
                assert(spec_dec_bytes(n)[i] == spec_dec_bytes(n / 10)[i]);
            } else {
                assert(spec_dec_bytes(n)[i] == (48 + n % 10) as u8);
            }
        }
    }
}

/// An all-ASCII byte sequence is valid UTF-8 and decodes to the
/// character sequence obtained by reading each byte as a character.
pub proof fn lemma_ascii_bytes_decode(v: Seq<u8>)
    requires
        forall|i: int| 0 <= i < v.len() ==> #[trigger] v[i] < 128,
    ensures
        valid_utf8(v),
        decode_utf8(v) == v.map_values(|b: u8| b as char),
{
    let chars = v.map_values(|b: u8| b as char);
    assert forall|i: int| 0 <= i < chars.len() implies '\0' <= #[trigger] chars[i]
        <= '\u{7f}' by {
        assert(v[i] < 128);
    }
    assert(is_ascii_chars(chars));
    is_ascii_chars_encode_utf8(chars);
    assert(encode_utf8(chars) =~= v);
    encode_utf8_valid_utf8(chars);
    encode_utf8_decode_utf8(chars);
}

/// UTF-8 encoding distributes over concatenation.
pub proof fn lemma_encode_utf8_concat(a: Seq<char>, b: Seq<char>)
    ensures
        encode_utf8(a + b) == encode_utf8(a) + encode_utf8(b),
    decreases a.len(),
{
    if a.len() == 0 {
        assert(a + b =~= b);
        assert(encode_utf8(a) + encode_utf8(b) =~= encode_utf8(b));
    } else {
        assert((a + b)[0] == a[0]);
        assert((a + b).drop_first() =~= a.drop_first() + b);
        lemma_encode_utf8_concat(a.drop_first(), b);
        assert(encode_utf8(a + b) =~= encode_utf8(a) + encode_utf8(b));
    }
}

/// Relies on `String::from_utf8`: returns the string decoded from the bytes
/// when they are valid UTF-8, and nothing otherwise.
#[verifier::external_body]
pub(crate) fn string_from_utf8(v: Vec<u8>) -> (r: Option<String>)
    ensures
        r is Some <==> valid_utf8(v@),
        r matches Some(s) ==> s@ == decode_utf8(v@),
{
    String::from_utf8(v).ok()
}

/// Builds the string whose characters are the given ASCII bytes.
pub fn ascii_to_string(v: Vec<u8>) -> (r: String)
    requires
        forall|i: int| 0 <= i < v@.len() ==> #[trigger] v@[i] < 128,
    ensures
        r@ == v@.map_values(|b: u8| b as char),
{
    proof {
        lemma_ascii_bytes_decode(v@);
    }
    let ghost bytes = v@;
    match string_from_utf8(v) {
        Some(s) => s,
        None => {
            proof {
                assert(valid_utf8(bytes));
                assert(false);
            }
            String::new()
        },
    }
}

/// Renders `n` in decimal as a string.
pub fn u64_dec_string(n: u64) -> (r: String)
    ensures
        r@ == spec_dec_chars(n as nat),
{
    let v = u64_dec_bytes(n);
    proof {
        lemma_dec_bytes_ascii(n as nat);
    }
    ascii_to_string(v)
}

/// Whether `b` is a decimal digit byte.
pub open spec fn is_dec_byte(b: u8) -> bool {
    48 <= b <= 57
}

/// The value of a decimal digit byte sequence, most significant first.
pub open spec fn spec_dec_value(s: Seq<u8>) -> nat
    decreases s.len(),
{
    if s.len() == 0 {
        0
    } else {
        spec_dec_value(s.drop_last()) * 10 + (s.last() - 48) as nat
    }
}

/// A longer digit string is never smaller in value: dropping the last digit
/// divides the value by ten.
proof fn lemma_dec_value_monotone(s: Seq<u8>, i: int)
    requires
        0 <= i <= s.len(),
    ensures
        spec_dec_value(s.take(i)) <= spec_dec_value(s),
    decreases s.len() - i,
{
    if i < s.len() {
        lemma_dec_value_monotone(s, i + 1);
        assert(s.take(i + 1).drop_last() =~= s.take(i));
        assert(spec_dec_value(s.take(i)) <= spec_dec_value(s.take(i + 1)));
    } else {
        assert(s.take(i) =~= s);
    }
}

/// Parses an unsigned decimal number from bytes. Returns the value exactly
/// when the input is a nonempty all-digit sequence whose value fits in `u64`.
pub fn parse_dec_u64(s: &[u8]) -> (r: Option<u64>)
    ensures
        r is Some <==> s@.len() > 0 && (forall|i: int| 0 <= i < s@.len() ==> is_dec_byte(
            #[trigger] s@[i],
        )) && spec_dec_value(s@) <= u64::MAX,
        r matches Some(v) ==> v == spec_dec_value(s@),
{
    if s.len() == 0 {
        return None;
    }
    let mut acc: u64 = 0;
    let mut i: usize = 0;
    while i < s.len()
        invariant
            0 <= i <= s@.len(),
            forall|j: int| 0 <= j < i ==> is_dec_byte(#[trigger] s@[j]),
            acc == spec_dec_value(s@.take(i as int)),
        decreases s@.len() - i,
    {
        let b = *vstd::slice::slice_index_get(s, i);
        if b < 48 || b > 57 {
            return None;
        }
        let d = (b - 48) as u64;
        let acc10 = match acc.checked_mul(10) {
            Some(x) => x,
            None => {
                proof {
                    assert(s@.take(i as int + 1).drop_last() =~= s@.take(i as int));
                    assert(spec_dec_value(s@.take(i as int + 1)) > u64::MAX);
                    lemma_dec_value_monotone(s@, i as int + 1);
                }
                return None;
            },
        };
        let next = match acc10.checked_add(d) {
            Some(x) => x,
            None => {
                proof {
                    assert(s@.take(i as int + 1).drop_last() =~= s@.take(i as int));
                    assert(spec_dec_value(s@.take(i as int + 1)) > u64::MAX);
                    lemma_dec_value_monotone(s@, i as int + 1);
                }
                return None;
            },
        };
        proof {
            assert(s@.take(i as int + 1).drop_last() =~= s@.take(i as int));
        }
        acc = next;
        i = i + 1;
    }
    proof {
        assert(s@.take(i as int) =~= s@);
    }
    Some(acc)
}

/// Whether `c` is a decimal digit character.
pub open spec fn is_dec_char(c: char) -> bool {
    48 <= c as u32 <= 57
}

/// The value of a decimal digit character sequence, most significant first.
pub open spec fn spec_dec_value_chars(s: Seq<char>) -> nat
    decreases s.len(),
{
    if s.len() == 0 {
        0
    } else {
        spec_dec_value_chars(s.drop_last()) * 10 + (s.last() as u32 - 48) as nat
    }
}

/// Parses an unsigned decimal number below 2^16 from a string. Returns the
/// value exactly when the input is a nonempty all-digit string whose value
/// fits in `u16`.
pub fn parse_dec_u16(s: &str) -> (r: Option<u16>)
    ensures
        r is Some <==> s@.len() > 0 && (forall|i: int| 0 <= i < s@.len() ==> is_dec_char(
            #[trigger] s@[i],
        )) && spec_dec_value_chars(s@) <= u16::MAX,
        r matches Some(v) ==> v == spec_dec_value_chars(s@),
{
    let n = s.unicode_len();
    if n == 0 {
        return None;
    }
    let mut acc: u32 = 0;
    let mut i: usize = 0;
    while i < n
        invariant
            0 <= i <= n,
            n == s@.len(),
            forall|j: int| 0 <= j < i ==> is_dec_char(#[trigger] s@[j]),
            acc == spec_dec_value_chars(s@.take(i as int)),
            acc <= u16::MAX,
        decreases n - i,
    {
        let c = s.get_char(i);
        let cv = c as u32;
        if cv < 48 || cv > 57 {
            return None;
        }
        proof {
            assert(s@.take(i as int + 1).drop_last() =~= s@.take(i as int));
        }
        let next = acc * 10 + (cv - 48);
        if next > 65535 {
            proof {
                assert(spec_dec_value_chars(s@.take(i as int + 1)) > u16::MAX);
                lemma_dec_value_chars_monotone(s@, i as int + 1);
            }
            return None;
        }
        acc = next;
        i = i + 1;
    }
    proof {
        assert(s@.take(i as int) =~= s@);
    }
    Some(acc as u16)
}

/// Dropping trailing digits never increases the value.
proof fn lemma_dec_value_chars_monotone(s: Seq<char>, i: int)
    requires
        0 <= i <= s.len(),
    ensures
        spec_dec_value_chars(s.take(i)) <= spec_dec_value_chars(s),
    decreases s.len() - i,
{
    if i < s.len() {
        lemma_dec_value_chars_monotone(s, i + 1);
        assert(s.take(i + 1).drop_last() =~= s.take(i));
        assert(spec_dec_value_chars(s.take(i)) <= spec_dec_value_chars(s.take(i + 1)));
    } else {
        assert(s.take(i) =~= s);
    }
}

/// Copies `input[from..to]` into a fresh vector.
pub fn copy_range(input: &[u8], from: usize, to: usize) -> (r: Vec<u8>)
    requires
        from <= to <= input@.len(),
    ensures
        r@ == input@.subrange(from as int, to as int),
{
    let mut v: Vec<u8> = Vec::new();
    let mut i: usize = from;
    while i < to
        invariant
            from <= i <= to <= input@.len(),
            v@ == input@.subrange(from as int, i as int),
        decreases to - i,
    {
        v.push(*vstd::slice::slice_index_get(input, i));
        proof {
            assert(v@ =~= input@.subrange(from as int, i as int + 1));
        }
        i = i + 1;
    }
    v
}

} // verus!
