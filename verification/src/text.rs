//! Small text helpers: decimal numerals and byte search.

use vstd::prelude::*;
use vstd::string::*;
use vstd::utf8::{encode_scalar, encode_utf8, has_width_1_encoding};

verus! {

/// The character of the decimal digit `d`.
pub open spec fn digit_char(d: nat) -> char {
    if d == 0 {
        '0'
    } else if d == 1 {
        '1'
    } else if d == 2 {
        '2'
    } else if d == 3 {
        '3'
    } else if d == 4 {
        '4'
    } else if d == 5 {
        '5'
    } else if d == 6 {
        '6'
    } else if d == 7 {
        '7'
    } else if d == 8 {
        '8'
    } else {
        '9'
    }
}

/// The decimal numeral of `n`, without leading zeros.
pub open spec fn decimal(n: nat) -> Seq<char>
    decreases n,
{
    if n < 10 {
        seq![digit_char(n)]
    } else {
        decimal(n / 10).push(digit_char(n % 10))
    }
}

/// Whether `text` holds a full stop.
pub open spec fn has_dot(text: Seq<char>) -> bool {
    text.contains('.')
}

/// Whether `needle` occurs in `hay` as a contiguous run.
pub open spec fn occurs_in(needle: Seq<u8>, hay: Seq<u8>) -> bool {
    exists|i: int| occurs_at(needle, hay, i)
}

/// Whether `needle` occurs in `hay` starting at index `i`.
pub open spec fn occurs_at(needle: Seq<u8>, hay: Seq<u8>, i: int) -> bool {
    0 <= i && i + needle.len() <= hay.len() && hay.subrange(i, i + needle.len()) == needle
}

/// The byte of a full stop.
pub const DOT: u8 = 0x2e;

proof fn lemma_high_bytes_are_no_dot(b: u8)
    by (bit_vector)
    ensures
        0x80u8 | b != 0x2eu8,
        0xc0u8 | b != 0x2eu8,
        0xe0u8 | b != 0x2eu8,
        0xf0u8 | b != 0x2eu8,
{
}

proof fn lemma_low_byte_is_itself(v: u32)
    by (bit_vector)
    requires
        v <= 0x7f,
    ensures
        (v & 0x7f) as u8 == 0x2eu8 <==> v == 0x2eu32,
{
}

/// The encoding of one character holds the byte of a full stop exactly
/// where the character is one.
proof fn lemma_dot_in_scalar(c: char)
    ensures
        encode_scalar(c as u32).contains(DOT) <==> c == '.',
{
    let v = c as u32;
    let bytes = encode_scalar(v);
    lemma_high_bytes_are_no_dot(((v >> 6) & 0x1F) as u8);
    lemma_high_bytes_are_no_dot(((v >> 12) & 0x0F) as u8);
    lemma_high_bytes_are_no_dot(((v >> 18) & 0x7) as u8);
    lemma_high_bytes_are_no_dot((v & 0x3F) as u8);
    lemma_high_bytes_are_no_dot(((v >> 6) & 0x3F) as u8);
    lemma_high_bytes_are_no_dot(((v >> 12) & 0x3F) as u8);
    if has_width_1_encoding(v) {
        lemma_low_byte_is_itself(v);
        assert(bytes[0] == (v & 0x7f) as u8);
        if c == '.' {
            assert(bytes[0] == DOT);
        }
    }
    if bytes.contains(DOT) {
        let i = choose|i: int| 0 <= i < bytes.len() && bytes[i] == DOT;
        assert(has_width_1_encoding(v));
    }
}

/// The UTF-8 encoding of a text holds the byte of a full stop exactly
/// where the text holds a full stop.
pub proof fn lemma_dot_in_encoding(text: Seq<char>)
    ensures
        encode_utf8(text).contains(DOT) <==> has_dot(text),
    decreases text.len(),
{
    if text.len() > 0 {
        let head = encode_scalar(text[0] as u32);
        let rest = text.drop_first();
        let tail = encode_utf8(rest);
        lemma_dot_in_scalar(text[0]);
        lemma_dot_in_encoding(rest);
        if (head + tail).contains(DOT) {
            let i = choose|i: int| 0 <= i < (head + tail).len() && (head + tail)[i] == DOT;
            if i < head.len() {
                assert(head[i] == DOT);
                assert(text[0] == '.');
            } else {
                assert(tail[i - head.len()] == DOT);
                let k = choose|k: int| 0 <= k < rest.len() && rest[k] == '.';
                assert(text[k + 1] == '.');
            }
        }
        if text.contains('.') {
            let k = choose|k: int| 0 <= k < text.len() && text[k] == '.';
            if k == 0 {
                let i = choose|i: int| 0 <= i < head.len() && head[i] == DOT;
                assert((head + tail)[i] == DOT);
            } else {
                assert(rest[k - 1] == '.');
                let i = choose|i: int| 0 <= i < tail.len() && tail[i] == DOT;
                assert((head + tail)[head.len() + i] == DOT);
            }
        }
    }
}

fn digit_text(d: u64) -> (text: &'static str)
    requires
        d < 10,
    ensures
        text@ == seq![digit_char(d as nat)],
{
    proof {
        reveal_strlit("0");
        reveal_strlit("1");
        reveal_strlit("2");
        reveal_strlit("3");
        reveal_strlit("4");
        reveal_strlit("5");
        reveal_strlit("6");
        reveal_strlit("7");
        reveal_strlit("8");
        reveal_strlit("9");
    }
    let text = match d {
        0 => "0",
        1 => "1",
        2 => "2",
        3 => "3",
        4 => "4",
        5 => "5",
        6 => "6",
        7 => "7",
        8 => "8",
        _ => "9",
    };
    assert(text@ =~= seq![digit_char(d as nat)]);
    text
}

/// Writes `n` as a decimal numeral.
pub fn decimal_string(n: u64) -> (text: String)
    ensures
        text@ == decimal(n as nat),
    decreases n,
{
    if n < 10 {
        String::from_str(digit_text(n))
    } else {
        let mut text = decimal_string(n / 10);
        text.append(digit_text(n % 10));
        assert(text@ =~= decimal(n as nat));
        text
    }
}

/// Whether the text holds a full stop.
pub fn contains_dot(text: &str) -> (found: bool)
    ensures
        found == has_dot(text@),
{
    let bytes = text.as_bytes();
    let mut i: usize = 0;
    while i < bytes.len()
        invariant
            i <= bytes@.len(),
            bytes@ == encode_utf8(text@),
            forall|k: int| 0 <= k < i ==> bytes@[k] != DOT,
        decreases bytes@.len() - i,
    {
        if bytes[i] == DOT {
            proof {
                lemma_dot_in_encoding(text@);
                assert(bytes@[i as int] == DOT);
            }
            return true;
        }
        i += 1;
    }
    proof {
        lemma_dot_in_encoding(text@);
    }
    false
}

/// Whether `needle` occurs in `hay` as a contiguous run.
pub fn contains_bytes(hay: &[u8], needle: &[u8]) -> (found: bool)
    ensures
        found == occurs_in(needle@, hay@),
{
    if needle.len() > hay.len() {
        assert(forall|i: int| !occurs_at(needle@, hay@, i));
        return false;
    }
    let last: usize = hay.len() - needle.len();
    let mut start: usize = 0;
    while start <= last
        invariant
            last + needle@.len() == hay@.len(),
            hay@.len() <= usize::MAX,
            start <= last + 1,
            forall|i: int| 0 <= i < start ==> !occurs_at(needle@, hay@, i),
        decreases last + 1 - start,
    {
        let mut k: usize = 0;
        while k < needle.len() && hay[start + k] == needle[k]
            invariant
                last + needle@.len() == hay@.len(),
                hay@.len() <= usize::MAX,
                start <= last,
                k <= needle@.len(),
                forall|j: int| 0 <= j < k ==> hay@[start + j] == needle@[j],
            decreases needle@.len() - k,
        {
            k += 1;
        }
        if k == needle.len() {
            assert(hay@.subrange(start as int, start + needle@.len()) =~= needle@);
            assert(occurs_at(needle@, hay@, start as int));
            return true;
        }
        assert(!occurs_at(needle@, hay@, start as int)) by {
            if occurs_at(needle@, hay@, start as int) {
                assert(hay@.subrange(start as int, start + needle@.len())[k as int] == needle@[
                    k as int]);
            }
        }
        start += 1;
    }
    assert(forall|i: int| !occurs_at(needle@, hay@, i));
    false
}

} // verus!
