//! String hashing: a trusted SHA-256 digest call and a verified lowercase
//! hex rendering of it.

use vstd::prelude::*;
use sha2::Digest;
use crate::text::string_from_chars;

verus! {

/// The SHA-256 digest of the UTF-8 bytes of a string: a fixed function of
/// the characters alone, named rather than spelled out.
pub uninterp spec fn sha256_of(s: Seq<char>) -> Seq<u8>;

/// Relies on sha2's `Sha256` (`Digest::digest`): the digest depends on
/// the input bytes alone, and is 32 bytes long.
#[verifier::external_body]
fn sha256_bytes(input: &str) -> (r: Vec<u8>)
    ensures
        r@ == sha256_of(input@),
        r@.len() == 32,
{
    sha2::Sha256::digest(input.as_bytes()).to_vec()
}

/// The lowercase hex digit of a value below 16.
pub open spec fn hex_digit(d: int) -> char {
    if d == 0 {
        '0'
    } else if d == 1 {
        '1'
    } else if d == 2 {
        '2'
    } else if d == 3 {
        '3'
    } else if d == 4 {
        '4'
    } else if d == 5 {
        '5'
    } else if d == 6 {
        '6'
    } else if d == 7 {
        '7'
    } else if d == 8 {
        '8'
    } else if d == 9 {
        '9'
    } else if d == 10 {
        'a'
    } else if d == 11 {
        'b'
    } else if d == 12 {
        'c'
    } else if d == 13 {
        'd'
    } else if d == 14 {
        'e'
    } else {
        'f'
    }
}

/// Lowercase hex of a byte sequence: two digits for each byte, high
/// nibble first.
pub open spec fn hex_of_bytes(b: Seq<u8>) -> Seq<char>
    decreases b.len(),
{
    if b.len() == 0 {
        Seq::empty()
    } else {
        hex_of_bytes(b.drop_last()) + seq![
            hex_digit(b.last() as int / 16),
            hex_digit(b.last() as int % 16),
        ]
    }
}

fn hex_digit_exec(d: u8) -> (c: char)
    requires
        d < 16,
    ensures
        c == hex_digit(d as int),
{
    if d == 0 {
        '0'
    } else if d == 1 {
        '1'
    } else if d == 2 {
        '2'
    } else if d == 3 {
        '3'
    } else if d == 4 {
        '4'
    } else if d == 5 {
        '5'
    } else if d == 6 {
        '6'
    } else if d == 7 {
        '7'
    } else if d == 8 {
        '8'
    } else if d == 9 {
        '9'
    } else if d == 10 {
        'a'
    } else if d == 11 {
        'b'
    } else if d == 12 {
        'c'
    } else if d == 13 {
        'd'
    } else if d == 14 {
        'e'
    } else {
        'f'
    }
}

/// Renders bytes as lowercase hex.
pub fn bytes_to_hex(b: &Vec<u8>) -> (r: Vec<char>)
    ensures
        r@ == hex_of_bytes(b@),
        r@.len() == 2 * b@.len(),
{
    let mut r: Vec<char> = Vec::new();
    let mut i: usize = 0;
    while i < b.len()
        invariant
            i <= b@.len(),
            r@ == hex_of_bytes(b@.subrange(0, i as int)),
            r@.len() == 2 * i,
        decreases b@.len() - i,
    {
        let ghost pre = b@.subrange(0, i as int);
        let ghost cur = b@.subrange(0, i as int + 1);
        proof {
            assert(cur.drop_last() =~= pre);
            assert(cur.last() == b@[i as int]);
        }
        let byte = b[i];
        r.push(hex_digit_exec(byte / 16));
        r.push(hex_digit_exec(byte % 16));
        assert(r@ =~= hex_of_bytes(cur));
        i = i + 1;
    }
    assert(b@.subrange(0, b@.len() as int) =~= b@);
    r
}

/// The SHA-256 digest of a string, as 64 lowercase hex characters.
pub fn hash_string(input: &str) -> (r: Result<String, String>)
    ensures
        match r {
            Ok(h) => h@ == hex_of_bytes(sha256_of(input@)) && h@.len() == 64,
            Err(_) => false,
        },
{
    let digest = sha256_bytes(input);
    let hex = bytes_to_hex(&digest);
    Ok(string_from_chars(&hex))
}

} // verus!
