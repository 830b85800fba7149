//! Dotted-decimal IPv4 addresses.

use crate::text::DOT;
use vstd::prelude::*;
use vstd::string::*;
use vstd::utf8::encode_utf8;

verus! {

/// The byte of the digit zero.
pub const ZERO: u8 = 0x30;

/// Whether `b` is the byte of a decimal digit.
pub open spec fn is_digit(b: u8) -> bool {
    0x30 <= b <= 0x39
}

/// The number that `part` writes, where `part` is a decimal numeral of one
/// to three digits, without a leading zero, that is at most 255.
pub open spec fn octet_value(part: Seq<u8>) -> Option<u8> {
    if part.len() == 1 && is_digit(part[0]) {
        Some((part[0] - 0x30) as u8)
    } else if part.len() == 2 && is_digit(part[0]) && is_digit(part[1]) && part[0] != 0x30 {
        Some(((part[0] - 0x30) * 10 + (part[1] - 0x30)) as u8)
    } else if part.len() == 3 && is_digit(part[0]) && is_digit(part[1]) && is_digit(part[2])
        && part[0] != 0x30 && (part[0] - 0x30) * 100 + (part[1] - 0x30) * 10 + (part[2] - 0x30)
        <= 255 {
        Some(((part[0] - 0x30) * 100 + (part[1] - 0x30) * 10 + (part[2] - 0x30)) as u8)
    } else {
        None
    }
}

/// Whether full stops at `i`, `j` and `k` cut `text` into the numerals of
/// the four octets `o`.
pub open spec fn splits_as(text: Seq<u8>, i: int, j: int, k: int, o: Seq<u8>) -> bool {
    &&& o.len() == 4
    &&& 0 <= i < j < k < text.len()
    &&& text[i] == DOT
    &&& text[j] == DOT
    &&& text[k] == DOT
    &&& octet_value(text.subrange(0, i)) == Some(o[0])
    &&& octet_value(text.subrange(i + 1, j)) == Some(o[1])
    &&& octet_value(text.subrange(j + 1, k)) == Some(o[2])
    &&& octet_value(text.subrange(k + 1, text.len() as int)) == Some(o[3])
}

/// Whether `text` is the dotted-decimal form of the address with octets `o`.
pub open spec fn is_address(text: Seq<u8>, o: Seq<u8>) -> bool {
    exists|i: int, j: int, k: int| splits_as(text, i, j, k, o)
}

/// A numeral holds no full stop.
proof fn lemma_octet_has_no_dot(part: Seq<u8>)
    requires
        octet_value(part) is Some,
    ensures
        forall|q: int| 0 <= q < part.len() ==> part[q] != DOT,
{
}

fn find_dot(text: &[u8], from: usize) -> (at: Option<usize>)
    requires
        from <= text@.len(),
    ensures
        match at {
            Some(p) => from <= p < text@.len() && text@[p as int] == DOT && forall|q: int|
                from <= q < p ==> text@[q] != DOT,
            None => forall|q: int| from <= q < text@.len() ==> text@[q] != DOT,
        },
{
    let mut p: usize = from;
    while p < text.len()
        invariant
            from <= p <= text@.len(),
            forall|q: int| from <= q < p ==> text@[q] != DOT,
        decreases text@.len() - p,
    {
        if text[p] == DOT {
            return Some(p);
        }
        p += 1;
    }
    None
}

fn digit_at(text: &[u8], at: usize) -> (d: Option<u16>)
    requires
        at < text@.len(),
    ensures
        d is Some <==> is_digit(text@[at as int]),
        d is Some ==> d.unwrap() == text@[at as int] - 0x30,
{
    let b: u8 = text[at];
    if ZERO <= b && b <= 0x39 {
        Some((b - ZERO) as u16)
    } else {
        None
    }
}

fn octet(text: &[u8], lo: usize, hi: usize) -> (value: Option<u8>)
    requires
        lo <= hi <= text@.len(),
    ensures
        value == octet_value(text@.subrange(lo as int, hi as int)),
{
    let ghost part = text@.subrange(lo as int, hi as int);
    let n: usize = hi - lo;
    if n == 0 || n > 3 {
        return None;
    }
    assert(part[0] == text@[lo as int]);
    let first: u16 = match digit_at(text, lo) {
        Some(d) => d,
        None => { return None; },
    };
    if n == 1 {
        return Some(first as u8);
    }
    assert(part[1] == text@[lo + 1]);
    let second: u16 = match digit_at(text, lo + 1) {
        Some(d) => d,
        None => { return None; },
    };
    if first == 0 {
        return None;
    }
    if n == 2 {
        return Some((first * 10 + second) as u8);
    }
    assert(part[2] == text@[lo + 2]);
    let third: u16 = match digit_at(text, lo + 2) {
        Some(d) => d,
        None => { return None; },
    };
    let total: u16 = first * 100 + second * 10 + third;
    if total <= 255 {
        Some(total as u8)
    } else {
        None
    }
}

/// Reads a dotted-decimal IPv4 address: four numerals of one to three
/// digits, each at most 255 and without a leading zero, with a full stop
/// between them and nothing else. Gives the octets of the one address
/// that `text` writes, and `None` exactly where it writes none.
pub fn parse_ipv4(text: &str) -> (address: Option<[u8; 4]>)
    ensures
        match address {
            Some(o) => is_address(encode_utf8(text@), o@),
            None => forall|o: Seq<u8>| !is_address(encode_utf8(text@), o),
        },
{
    let bytes = text.as_bytes();
    let len: usize = bytes.len();
    let ghost b = bytes@;
    proof {
        assert forall|i: int, j: int, k: int, o: Seq<u8>| #[trigger] splits_as(b, i, j, k, o) implies {
            &&& forall|q: int| 0 <= q < i ==> b[q] != DOT
            &&& forall|q: int| i + 1 <= q < j ==> b[q] != DOT
            &&& forall|q: int| j + 1 <= q < k ==> b[q] != DOT
        } by {
            lemma_octet_has_no_dot(b.subrange(0, i));
            lemma_octet_has_no_dot(b.subrange(i + 1, j));
            lemma_octet_has_no_dot(b.subrange(j + 1, k));
            assert forall|q: int| 0 <= q < i implies b[q] != DOT by {
                assert(b.subrange(0, i)[q] == b[q]);
            }
            assert forall|q: int| i + 1 <= q < j implies b[q] != DOT by {
                assert(b.subrange(i + 1, j)[q - i - 1] == b[q]);
            }
            assert forall|q: int| j + 1 <= q < k implies b[q] != DOT by {
                assert(b.subrange(j + 1, k)[q - j - 1] == b[q]);
            }
        }
    }
    let i: usize = match find_dot(bytes, 0) {
        Some(p) => p,
        None => { return None; },
    };
    let j: usize = match find_dot(bytes, i + 1) {
        Some(p) => p,
        None => { return None; },
    };
    let k: usize = match find_dot(bytes, j + 1) {
        Some(p) => p,
        None => { return None; },
    };
    assert forall|i2: int, j2: int, k2: int, o: Seq<u8>| #[trigger]
        splits_as(b, i2, j2, k2, o) implies i2 == i && j2 == j && k2 == k by {
        assert(i2 == i);
        assert(j2 == j);
    }
    let first: u8 = match octet(bytes, 0, i) {
        Some(v) => v,
        None => { return None; },
    };
    let second: u8 = match octet(bytes, i + 1, j) {
        Some(v) => v,
        None => { return None; },
    };
    let third: u8 = match octet(bytes, j + 1, k) {
        Some(v) => v,
        None => { return None; },
    };
    let fourth: u8 = match octet(bytes, k + 1, len) {
        Some(v) => v,
        None => { return None; },
    };
    let address: [u8; 4] = [first, second, third, fourth];
    assert(splits_as(b, i as int, j as int, k as int, address@));
    Some(address)
}

/// Dotted-decimal text writes at most one address.
pub proof fn lemma_address_unique(text: Seq<u8>, a: Seq<u8>, b: Seq<u8>)
    requires
        is_address(text, a),
        is_address(text, b),
    ensures
        a == b,
{
    let (i, j, k) = choose|i: int, j: int, k: int| splits_as(text, i, j, k, a);
    let (i2, j2, k2) = choose|i: int, j: int, k: int| splits_as(text, i, j, k, b);
    lemma_octet_has_no_dot(text.subrange(0, i));
    lemma_octet_has_no_dot(text.subrange(0, i2));
    if i < i2 {
        assert(text.subrange(0, i2)[i] == text[i]);
    }
    if i2 < i {
        assert(text.subrange(0, i)[i2] == text[i2]);
    }
    lemma_octet_has_no_dot(text.subrange(i + 1, j));
    lemma_octet_has_no_dot(text.subrange(i + 1, j2));
    if j < j2 {
        assert(text.subrange(i + 1, j2)[j - i - 1] == text[j]);
    }
    if j2 < j {
        assert(text.subrange(i + 1, j)[j2 - i - 1] == text[j2]);
    }
    lemma_octet_has_no_dot(text.subrange(j + 1, k));
    lemma_octet_has_no_dot(text.subrange(j + 1, k2));
    if k < k2 {
        assert(text.subrange(j + 1, k2)[k - j - 1] == text[k]);
    }
    if k2 < k {
        assert(text.subrange(j + 1, k)[k2 - j - 1] == text[k2]);
    }
    assert(a =~= b);
}

} // verus!
