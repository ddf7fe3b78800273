//! MD5 and SHA-256 digests of text, written as lowercase hexadecimal.

use vstd::prelude::*;
use vstd::utf8::encode_utf8;
use crate::strings::push_char;

verus! {

/// The MD5 digest of some bytes.
pub uninterp spec fn md5_digest(data: Seq<u8>) -> Seq<u8>;

/// The SHA-256 digest of some bytes.
pub uninterp spec fn sha256_digest(data: Seq<u8>) -> Seq<u8>;

/// The MD5 digest (`md5::compute`) of a string's UTF-8 bytes: sixteen bytes.
#[verifier::external_body]
fn md5_of(data: &str) -> (res: Vec<u8>)
    ensures
        res@ == md5_digest(encode_utf8(data@)),
        res@.len() == 16,
{
    md5::compute(data.as_bytes()).0.to_vec()
}

/// The SHA-256 digest (`sha2::Sha256`, through `Digest::digest`) of a
/// string's UTF-8 bytes: thirty-two bytes.
#[verifier::external_body]
fn sha256_of(data: &str) -> (res: Vec<u8>)
    ensures
        res@ == sha256_digest(encode_utf8(data@)),
        res@.len() == 32,
{
    <sha2::Sha256 as sha2::Digest>::digest(data.as_bytes()).to_vec()
}

/// The lowercase hexadecimal digit of a value below sixteen.
pub open spec fn hex_digit(d: nat) -> char {
    if d < 10 {
        (d + 48) as char
    } else {
        (d + 87) as char
    }
}

/// Bytes written as lowercase hexadecimal, two digits each.
pub open spec fn hex(b: Seq<u8>) -> Seq<char>
    decreases b.len(),
{
    if b.len() == 0 {
        seq![]
    } else {
        hex(b.drop_last()) + seq![hex_digit((b.last() / 16) as nat), hex_digit((b.last() % 16) as nat)]
    }
}

fn hex_char(d: u8) -> (res: char)
    requires
        d < 16,
    ensures
        res == hex_digit(d as nat),
{
    if d < 10 {
        (d + 48) as char
    } else {
        (d + 87) as char
    }
}

/// Bytes written as lowercase hexadecimal.
pub fn to_hex(b: &Vec<u8>) -> (res: String)
    ensures
        res@ == hex(b@),
{
    let mut res = String::new();
    let mut i: usize = 0;
    while i < b.len()
        invariant
            i <= b.len(),
            res@ == hex(b@.subrange(0, i as int)),
        decreases b.len() - i,
    {
        let x = b[i];
        push_char(&mut res, hex_char(x / 16));
        push_char(&mut res, hex_char(x % 16));
        proof {
            let s = b@.subrange(0, i + 1);
            assert(s.drop_last() =~= b@.subrange(0, i as int));
            assert(s.last() == x);
        }
        i = i + 1;
    }
    proof {
        assert(b@.subrange(0, b@.len() as int) =~= b@);
    }
    res
}

/// The MD5 hash of a text in hexadecimal, or nothing for empty text.
pub open spec fn md5_hex(s: Seq<char>) -> Seq<char> {
    if s.len() == 0 {
        seq![]
    } else {
        hex(md5_digest(encode_utf8(s)))
    }
}

/// The SHA-256 hash of a text in hexadecimal, or nothing for empty text.
pub open spec fn sha256_hex(s: Seq<char>) -> Seq<char> {
    if s.len() == 0 {
        seq![]
    } else {
        hex(sha256_digest(encode_utf8(s)))
    }
}

/// The MD5 hash of a text in hexadecimal; empty text gives an empty string.
pub fn build_md5_hash(content: &str) -> (res: String)
    ensures
        res@ == md5_hex(content@),
{
    if content.is_empty() {
        return String::new();
    }
    to_hex(&md5_of(content))
}

/// The SHA-256 hash of a text in hexadecimal; empty text gives an empty
/// string.
pub fn build_sha256_hash(content: &str) -> (res: String)
    ensures
        res@ == sha256_hex(content@),
{
    if content.is_empty() {
        return String::new();
    }
    to_hex(&sha256_of(content))
}

} // verus!
