//! Namespace prefixes and block object keys.
use sha2::{Digest, Sha256};
use vstd::prelude::*;
use vstd::utf8::encode_utf8;

use crate::object::ObjectId;

verus! {

/// Tag of the on-store layout; caches written under another tag never share keys.
pub open spec fn cache_version() -> Seq<u8> {
    seq![0x56u8, 0x31u8]
}

/// The SHA-256 digest of a byte string.
pub uninterp spec fn sha256_of(data: Seq<u8>) -> Seq<u8>;

/// Relies on sha2::Sha256 (`Digest::digest`): the 32-byte SHA-256 digest of `data`.
#[verifier::external_body]
fn sha256(data: &[u8]) -> (r: Vec<u8>)
    ensures
        r@ == sha256_of(data@),
        r@.len() == 32,
{
    Sha256::digest(data).to_vec()
}

/// Lower-case hexadecimal digit for a value below 16.
pub open spec fn hex_digit(n: u8) -> char {
    seq!['0', '1', '2', '3', '4', '5', '6', '7', '8', '9', 'a', 'b', 'c', 'd', 'e', 'f'][n as int]
}

/// Two lower-case hex digits per byte, high nibble first.
pub open spec fn hex_chars(b: Seq<u8>) -> Seq<char> {
    Seq::new(
        2 * b.len(),
        |i: int|
            if i % 2 == 0 {
                hex_digit(b[i / 2] / 16)
            } else {
                hex_digit(b[i / 2] % 16)
            },
    )
}

/// Relies on hex::encode: two lower-case digits per byte, high nibble first.
#[verifier::external_body]
fn hex_encode(b: &[u8]) -> (r: String)
    ensures
        r@ == hex_chars(b@),
{
    hex::encode(b)
}

/// The `width` low-order bytes of `n`, most significant first.
pub open spec fn be_bytes(n: nat, width: nat) -> Seq<u8>
    decreases width,
{
    if width == 0 {
        seq![]
    } else {
        be_bytes(n / 256, (width - 1) as nat).push((n % 256) as u8)
    }
}

fn be_bytes_exec(n: u64, width: usize) -> (r: Vec<u8>)
    ensures
        r@ == be_bytes(n as nat, width as nat),
    decreases width,
{
    if width == 0 {
        Vec::new()
    } else {
        let mut v = be_bytes_exec(n / 256, width - 1);
        v.push((n % 256) as u8);
        v
    }
}

/// Hex digest naming one cache configuration: format tag, block size (8 bytes,
/// big-endian) and the caller's description of the source.
pub open spec fn namespace_prefix(source_description: Seq<char>, block_size: u64) -> Seq<char> {
    hex_chars(
        sha256_of(cache_version() + be_bytes(block_size as nat, 8) + encode_utf8(source_description)),
    )
}

/// Derives the namespace prefix of a cache instance.
pub fn derive_prefix(source_description: &str, block_size: u64) -> (r: String)
    ensures
        r@ == namespace_prefix(source_description@, block_size),
        r@.len() == 64,
{
    let mut input: Vec<u8> = Vec::new();
    input.push(0x56u8);
    input.push(0x31u8);
    let mut size_bytes = be_bytes_exec(block_size, 8);
    input.append(&mut size_bytes);
    let mut desc = vstd::slice::slice_to_vec(source_description.as_bytes());
    input.append(&mut desc);
    assert(input@ =~= cache_version() + be_bytes(block_size as nat, 8) + encode_utf8(
        source_description@,
    ));
    let digest = sha256(input.as_slice());
    hex_encode(digest.as_slice())
}

/// Decimal digit for a value below 10.
pub open spec fn decimal_digit(d: nat) -> char {
    seq!['0', '1', '2', '3', '4', '5', '6', '7', '8', '9'][d as int]
}

/// Decimal digits of `n`, left-padded with zeros to at least `width` digits.
pub open spec fn padded_decimal(n: nat, width: nat) -> Seq<char>
    decreases n + width,
{
    if n < 10 && width <= 1 {
        seq![decimal_digit(n)]
    } else {
        padded_decimal(n / 10, if width > 0 { (width - 1) as nat } else { 0 }).push(
            decimal_digit(n % 10),
        )
    }
}

/// Width of the block-index field of a block key.
pub const INDEX_WIDTH: u64 = 10;

/// Object key of one block: namespace, digest of the entity's identity, and
/// the block index as a zero-padded decimal.
pub open spec fn block_key(prefix: Seq<char>, cache_key: ObjectId, block_idx: u64) -> Seq<char> {
    prefix + seq!['/'] + hex_chars(
        sha256_of(encode_utf8(cache_key.key_view()) + encode_utf8(cache_key.etag_view())),
    ) + seq!['/'] + padded_decimal(block_idx as nat, INDEX_WIDTH as nat)
}

fn digit_str(d: u64) -> (r: &'static str)
    requires
        d < 10,
    ensures
        r@ == seq![decimal_digit(d as nat)],
{
    if d == 0 {
        proof { reveal_strlit("0"); }
        "0"
    } else if d == 1 {
        proof { reveal_strlit("1"); }
        "1"
    } else if d == 2 {
        proof { reveal_strlit("2"); }
        "2"
    } else if d == 3 {
        proof { reveal_strlit("3"); }
        "3"
    } else if d == 4 {
        proof { reveal_strlit("4"); }
        "4"
    } else if d == 5 {
        proof { reveal_strlit("5"); }
        "5"
    } else if d == 6 {
        proof { reveal_strlit("6"); }
        "6"
    } else if d == 7 {
        proof { reveal_strlit("7"); }
        "7"
    } else if d == 8 {
        proof { reveal_strlit("8"); }
        "8"
    } else {
        proof { reveal_strlit("9"); }
        "9"
    }
}

fn padded_decimal_exec(n: u64, width: u64) -> (r: String)
    ensures
        r@ == padded_decimal(n as nat, width as nat),
    decreases n + width,
{
    if n < 10 && width <= 1 {
        String::from_str(digit_str(n))
    } else {
        let w: u64 = if width > 0 { width - 1 } else { 0 };
        let mut s = padded_decimal_exec(n / 10, w);
        s.append(digit_str(n % 10));
        s
    }
}

/// Computes the object key of block `block_idx` of `cache_key` under `prefix`.
pub fn derive_block_key(prefix: &str, cache_key: &ObjectId, block_idx: u64) -> (r: String)
    ensures
        r@ == block_key(prefix@, *cache_key, block_idx),
{
    let mut identity = vstd::slice::slice_to_vec(cache_key.key().as_bytes());
    let mut etag_bytes = vstd::slice::slice_to_vec(cache_key.etag().as_bytes());
    identity.append(&mut etag_bytes);
    let digest = sha256(identity.as_slice());
    let hashed = hex_encode(digest.as_slice());
    let mut r = String::from_str(prefix);
    proof { reveal_strlit("/"); }
    r.append("/");
    r.append(hashed.as_str());
    r.append("/");
    let index = padded_decimal_exec(block_idx, INDEX_WIDTH);
    r.append(index.as_str());
    r
}

/// Value of a decimal digit character.
pub open spec fn digit_value(c: char) -> nat {
    if c == '1' { 1 }
    else if c == '2' { 2 }
    else if c == '3' { 3 }
    else if c == '4' { 4 }
    else if c == '5' { 5 }
    else if c == '6' { 6 }
    else if c == '7' { 7 }
    else if c == '8' { 8 }
    else if c == '9' { 9 }
    else { 0 }
}

/// Number written by a string of decimal digits.
pub open spec fn decimal_value(s: Seq<char>) -> nat
    decreases s.len(),
{
    if s.len() == 0 {
        0
    } else {
        decimal_value(s.drop_last()) * 10 + digit_value(s.last())
    }
}

proof fn lemma_digit_value(d: nat)
    requires
        d < 10,
    ensures
        digit_value(decimal_digit(d)) == d,
        decimal_digit(d) != '/',
{
}

proof fn lemma_padded_decimal_value(n: nat, width: nat)
    ensures
        decimal_value(padded_decimal(n, width)) == n,
        forall|i: int|
            0 <= i < padded_decimal(n, width).len() ==> padded_decimal(n, width)[i] != '/',
    decreases n + width,
{
    lemma_digit_value(n % 10);
    if n < 10 && width <= 1 {
        assert(padded_decimal(n, width).drop_last() =~= seq![]);
        assert(decimal_value(seq![]) == 0);
    } else {
        let w: nat = if width > 0 { (width - 1) as nat } else { 0 };
        lemma_padded_decimal_value(n / 10, w);
        assert(padded_decimal(n, width).drop_last() =~= padded_decimal(n / 10, w));
        assert(n == (n / 10) * 10 + n % 10);
    }
}

proof fn lemma_hex_chars_no_slash(b: Seq<u8>)
    ensures
        forall|i: int| 0 <= i < hex_chars(b).len() ==> hex_chars(b)[i] != '/',
{
    assert forall|i: int| 0 <= i < hex_chars(b).len() implies hex_chars(b)[i] != '/' by {
        let x = b[i / 2];
        assert(x / 16 < 16 && x % 16 < 16);
    }
}

/// `p + '/' + a + '/' + b` splits uniquely when `a` and `b` hold no `'/'`.
proof fn lemma_split_at_slashes(p: Seq<char>, a1: Seq<char>, b1: Seq<char>, a2: Seq<char>, b2: Seq<char>)
    requires
        p + seq!['/'] + a1 + seq!['/'] + b1 == p + seq!['/'] + a2 + seq!['/'] + b2,
        forall|i: int| 0 <= i < a1.len() ==> a1[i] != '/',
        forall|i: int| 0 <= i < a2.len() ==> a2[i] != '/',
    ensures
        a1 == a2,
        b1 == b2,
{
    let s1 = p + seq!['/'] + a1 + seq!['/'] + b1;
    let s2 = p + seq!['/'] + a2 + seq!['/'] + b2;
    let base: int = p.len() as int + 1;
    if a1.len() < a2.len() {
        assert(s1[base + a1.len()] == '/');
        assert(s2[base + a1.len()] == a2[a1.len() as int]);
    } else if a2.len() < a1.len() {
        assert(s2[base + a2.len()] == '/');
        assert(s1[base + a2.len()] == a1[a2.len() as int]);
    }
    assert(a1.len() == a2.len());
    assert forall|i: int| 0 <= i < a1.len() implies a1[i] == a2[i] by {
        assert(s1[base + i] == s2[base + i]);
    }
    assert(a1 =~= a2);
    assert(s1.len() == s2.len());
    assert forall|i: int| 0 <= i < b1.len() implies b1[i] == b2[i] by {
        assert(s1[base + a1.len() + 1 + i] == s2[base + a1.len() + 1 + i]);
    }
    assert(b1 =~= b2);
}

/// Hex encoding loses nothing: equal encodings come from equal bytes.
pub proof fn lemma_hex_chars_injective(a: Seq<u8>, b: Seq<u8>)
    requires
        hex_chars(a) == hex_chars(b),
    ensures
        a == b,
{
    assert(hex_chars(a).len() == 2 * a.len());
    assert forall|j: int| 0 <= j < a.len() implies a[j] == b[j] by {
        let hi = hex_chars(a)[2 * j];
        let lo = hex_chars(a)[2 * j + 1];
        assert(hi == hex_chars(b)[2 * j] && lo == hex_chars(b)[2 * j + 1]);
        assert(a[j] / 16 == b[j] / 16);
        assert(a[j] % 16 == b[j] % 16);
    }
    assert(a =~= b);
}

/// Two block keys under one namespace prefix coincide only when the digests of
/// the two entity identities coincide and the block indices are equal.
pub proof fn lemma_block_key_separates(
    prefix: Seq<char>,
    k1: ObjectId,
    i1: u64,
    k2: ObjectId,
    i2: u64,
)
    requires
        block_key(prefix, k1, i1) == block_key(prefix, k2, i2),
    ensures
        sha256_of(encode_utf8(k1.key_view()) + encode_utf8(k1.etag_view())) == sha256_of(
            encode_utf8(k2.key_view()) + encode_utf8(k2.etag_view()),
        ),
        i1 == i2,
{
    let d1 = sha256_of(encode_utf8(k1.key_view()) + encode_utf8(k1.etag_view()));
    let d2 = sha256_of(encode_utf8(k2.key_view()) + encode_utf8(k2.etag_view()));
    lemma_hex_chars_no_slash(d1);
    lemma_hex_chars_no_slash(d2);
    lemma_split_at_slashes(
        prefix,
        hex_chars(d1),
        padded_decimal(i1 as nat, 10),
        hex_chars(d2),
        padded_decimal(i2 as nat, 10),
    );
    lemma_hex_chars_injective(d1, d2);
    lemma_padded_decimal_value(i1 as nat, 10);
    lemma_padded_decimal_value(i2 as nat, 10);
}

/// Distinct block indices of one entity are stored under distinct keys.
pub proof fn lemma_block_indices_independent(prefix: Seq<char>, k: ObjectId, i1: u64, i2: u64)
    requires
        i1 != i2,
    ensures
        block_key(prefix, k, i1) != block_key(prefix, k, i2),
{
    if block_key(prefix, k, i1) == block_key(prefix, k, i2) {
        lemma_block_key_separates(prefix, k, i1, k, i2);
    }
}

/// Entities whose identity digests differ never share a block key, whatever
/// the block indices.
pub proof fn lemma_distinct_entities_independent(
    prefix: Seq<char>,
    k1: ObjectId,
    i1: u64,
    k2: ObjectId,
    i2: u64,
)
    requires
        sha256_of(encode_utf8(k1.key_view()) + encode_utf8(k1.etag_view())) != sha256_of(
            encode_utf8(k2.key_view()) + encode_utf8(k2.etag_view()),
        ),
    ensures
        block_key(prefix, k1, i1) != block_key(prefix, k2, i2),
{
    if block_key(prefix, k1, i1) == block_key(prefix, k2, i2) {
        lemma_block_key_separates(prefix, k1, i1, k2, i2);
    }
}

} // verus!
