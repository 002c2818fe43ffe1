//! Fingerprints of bytes: SHA-256 in lower-case hexadecimal.

use sha2::Digest;
use vstd::prelude::*;

use crate::text::is_hex_digit;

verus! {

/// The SHA-256 digest of a byte string.
pub uninterp spec fn sha256_digest(bytes: Seq<u8>) -> Seq<u8>;

/// `sha2::Sha256::digest`: the 32 bytes of the SHA-256 digest of `bytes`.
#[verifier::external_body]
fn sha256(bytes: &[u8]) -> (r: Vec<u8>)
    ensures
        r@ == sha256_digest(bytes@),
        r@.len() == 32,
{
    sha2::Sha256::digest(bytes).to_vec()
}

/// The lower-case hexadecimal digit of a number below sixteen.
pub open spec fn hex_digit(n: int) -> char {
    if n < 10 {
        (n + 48) as char
    } else {
        (n + 87) as char
    }
}

/// Bytes in lower-case hexadecimal, two digits each.
pub open spec fn hex(bytes: Seq<u8>) -> Seq<char> {
    Seq::new(
        2 * bytes.len(),
        |i: int|
            if i % 2 == 0 {
                hex_digit(bytes[i / 2] as int / 16)
            } else {
                hex_digit(bytes[i / 2] as int % 16)
            },
    )
}

/// The fingerprint of a byte string.
pub open spec fn fingerprint(bytes: Seq<u8>) -> Seq<char> {
    hex(sha256_digest(bytes))
}

/// The text has the form of a SHA-256 in hexadecimal, in either case.
pub open spec fn is_sha256_hex(s: Seq<char>) -> bool {
    s.len() == 64 && forall|i: int| 0 <= i < s.len() ==> is_hex_digit(#[trigger] s[i])
}

fn hex_char(n: u8) -> (r: char)
    requires
        n < 16,
    ensures
        r == hex_digit(n as int),
{
    if n < 10 {
        (n + 48) as char
    } else {
        (n + 87) as char
    }
}

fn to_hex(bytes: &Vec<u8>) -> (r: String)
    ensures
        r@ == hex(bytes@),
{
    let mut out = String::new();
    let mut i: usize = 0;
    while i < bytes.len()
        invariant
            i <= bytes@.len(),
            out@ == hex(bytes@.take(i as int)),
        decreases bytes.len() - i,
    {
        out.push(hex_char(bytes[i] / 16));
        out.push(hex_char(bytes[i] % 16));
        i += 1;
        assert(out@ =~= hex(bytes@.take(i as int)));
    }
    assert(bytes@.take(i as int) =~= bytes@);
    out
}

/// The fingerprint of a byte string: its SHA-256 in lower-case hexadecimal.
pub fn content_hash(bytes: &[u8]) -> (r: String)
    ensures
        r@ == fingerprint(bytes@),
        is_sha256_hex(r@),
        forall|i: int| 0 <= i < r@.len() ==> !('A' <= #[trigger] r@[i] <= 'F'),
{
    let digest = sha256(bytes);
    let r = to_hex(&digest);
    assert forall|i: int| 0 <= i < r@.len() implies is_hex_digit(#[trigger] r@[i]) && !('A' <= r@[i]
        <= 'F') by {
        assert(0 <= digest@[i / 2] as int / 16 < 16);
        assert(0 <= digest@[i / 2] as int % 16 < 16);
    }
    r
}

/// The number that a lower-case hexadecimal digit stands for.
pub open spec fn digit_value(c: char) -> int {
    if '0' <= c <= '9' {
        c as int - '0' as int
    } else if 'a' <= c <= 'f' {
        c as int - 'a' as int + 10
    } else {
        -1
    }
}

/// A fingerprint tells the whole digest: every two digits are read back as a byte of it.
pub proof fn fingerprint_tells_the_digest(bytes: Seq<u8>, at: int)
    requires
        0 <= at < sha256_digest(bytes).len(),
    ensures
        fingerprint(bytes).len() == 2 * sha256_digest(bytes).len(),
        0 <= digit_value(fingerprint(bytes)[2 * at]) < 16,
        0 <= digit_value(fingerprint(bytes)[2 * at + 1]) < 16,
        16 * digit_value(fingerprint(bytes)[2 * at]) + digit_value(fingerprint(bytes)[2 * at + 1])
            == sha256_digest(bytes)[at],
{
    let d = sha256_digest(bytes);
    let f = fingerprint(bytes);
    assert((2 * at) / 2 == at && (2 * at) % 2 == 0);
    assert((2 * at + 1) / 2 == at && (2 * at + 1) % 2 == 1);
    assert(f[2 * at] == hex_digit(d[at] as int / 16));
    assert(f[2 * at + 1] == hex_digit(d[at] as int % 16));
    assert(0 <= d[at] as int / 16 < 16);
    assert(0 <= d[at] as int % 16 < 16);
}

} // verus!
