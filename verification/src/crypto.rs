//! Cryptographic primitives of the lock protocol.
//!
//! Three building blocks, all deliberately deterministic, because the
//! protocol compares freshly computed values against previously stored ones
//! for equality:
//!
//! * `characterise_key` combines two context strings into a 32-byte key by
//!   a one-way expansion (a SHA-256 digest of the length-prefixed pair).
//! * `encrypt` / `decrypt` form a deterministic keyed transform. This is a
//!   keyed pseudorandom stream (one SHA-256 block per character), applied as
//!   a shift within the space of Unicode scalar values and written out in
//!   hexadecimal — explicitly *not* a randomized cipher, and not a general
//!   block cipher in an ad-hoc mode: reproducibility for equality checks is
//!   the design requirement here, and `decrypt` with a wrong key must
//!   return distinct garbage for distinct inputs rather than fail.
//!   `decrypt` is total: input that is not well-formed ciphertext is
//!   returned unchanged.
//! * `salted_hash` is a memory-hard salted one-way hash (Argon2), bound to
//!   a base64 salt.

use vstd::prelude::*;
use crate::errors::DeemakError;
use crate::strkit::{push_char, char_from_u32};

verus! {

// ---------------------------------------------------------------------------
// SHA-256, the one-way expansion behind keys and the cipher stream
// ---------------------------------------------------------------------------

/// The SHA-256 digest of a byte sequence. The digest has no short
/// description, so it is only named here; the trusted wrapper below ties the
/// name to the real computation.
pub uninterp spec fn sha256_of(input: Seq<u8>) -> Seq<u8>;

/// Relies on `sha2::Sha256`: the digest is 32 bytes and depends on the
/// input bytes alone.
#[verifier::external_body]
fn sha256(input: &Vec<u8>) -> (r: Vec<u8>)
    ensures
        r@ == sha256_of(input@),
        r@.len() == 32,
{
    let mut h = <sha2::Sha256 as sha2::Digest>::new();
    sha2::Digest::update(&mut h, input.as_slice());
    sha2::Digest::finalize(h).to_vec()
}

// ---------------------------------------------------------------------------
// Byte encodings used to feed strings and counters into SHA-256
// ---------------------------------------------------------------------------

/// Byte `k` (little-endian) of a character's code.
pub open spec fn char_byte(c: char, k: int) -> u8 {
    let v = c as u32;
    if k == 0 { (v & 0xFF) as u8 }
    else if k == 1 { ((v >> 8) & 0xFF) as u8 }
    else if k == 2 { ((v >> 16) & 0xFF) as u8 }
    else { ((v >> 24) & 0xFF) as u8 }
}

/// A character sequence as bytes: each character contributes its code as
/// four little-endian bytes.
pub open spec fn chars_bytes(s: Seq<char>) -> Seq<u8> {
    Seq::new(s.len() * 4, |i: int| char_byte(s[i / 4], i % 4))
}

/// A 64-bit number as eight little-endian bytes.
pub open spec fn le8(n: u64) -> Seq<u8> {
    seq![
        (n & 0xFF) as u8,
        ((n >> 8) & 0xFF) as u8,
        ((n >> 16) & 0xFF) as u8,
        ((n >> 24) & 0xFF) as u8,
        ((n >> 32) & 0xFF) as u8,
        ((n >> 40) & 0xFF) as u8,
        ((n >> 48) & 0xFF) as u8,
        ((n >> 56) & 0xFF) as u8,
    ]
}

/// Append the four little-endian code bytes of every character of `s`.
fn append_chars_bytes(out: &mut Vec<u8>, s: &str)
    ensures
        final(out)@ == old(out)@ + chars_bytes(s@),
{
    let ghost base = out@;
    let n = s.unicode_len();
    let mut j: usize = 0;
    while j < n
        invariant
            n == s@.len(),
            j <= n,
            out@ == base + chars_bytes(s@).take(4 * j as int),
        decreases n - j,
    {
        let v = s.get_char(j) as u32;
        out.push((v & 0xFF) as u8);
        out.push(((v >> 8) & 0xFF) as u8);
        out.push(((v >> 16) & 0xFF) as u8);
        out.push(((v >> 24) & 0xFF) as u8);
        proof {
            let cb = chars_bytes(s@);
            assert forall|i: int| 4 * j <= i < 4 * (j + 1) implies
                cb[i] == char_byte(s@[j as int], i - 4 * j) by {
                assert(i / 4 == j && i % 4 == i - 4 * j) by (nonlinear_arith)
                    requires 4 * j <= i < 4 * (j + 1), j >= 0;
            }
            assert(out@ =~= base + cb.take(4 * (j + 1) as int));
        }
        j += 1;
    }
    proof {
        assert(out@ =~= old(out)@ + chars_bytes(s@));
    }
}

// ---------------------------------------------------------------------------
// Key characterisation
// ---------------------------------------------------------------------------

/// The byte string hashed to characterise a key: the length of the first
/// context, then both contexts, so distinct pairs never collide as input
/// and the combination is order-sensitive.
pub open spec fn key_input(a: Seq<char>, b: Seq<char>) -> Seq<u8> {
    le8(a.len() as u64) + chars_bytes(a) + chars_bytes(b)
}

/// The key characterised by an ordered pair of context strings.
pub open spec fn key_of(a: Seq<char>, b: Seq<char>) -> Seq<u8> {
    sha256_of(key_input(a, b))
}

/// Deterministically combine two context strings into a symmetric key.
/// The combination is order-sensitive: the first context's length is
/// included, so no two distinct pairs feed the same bytes to the digest.
pub fn characterise_key(a: &str, b: &str) -> (r: Vec<u8>)
    ensures
        r@ == key_of(a@, b@),
        r@.len() == 32,
{
    let mut input: Vec<u8> = Vec::new();
    let n = a.unicode_len() as u64;
    input.push((n & 0xFF) as u8);
    input.push(((n >> 8) & 0xFF) as u8);
    input.push(((n >> 16) & 0xFF) as u8);
    input.push(((n >> 24) & 0xFF) as u8);
    input.push(((n >> 32) & 0xFF) as u8);
    input.push(((n >> 40) & 0xFF) as u8);
    input.push(((n >> 48) & 0xFF) as u8);
    input.push(((n >> 56) & 0xFF) as u8);
    assert(input@ =~= le8(a@.len() as u64));
    append_chars_bytes(&mut input, a);
    append_chars_bytes(&mut input, b);
    assert(input@ =~= key_input(a@, b@));
    sha256(&input)
}

// ---------------------------------------------------------------------------
// The keystream and the hexadecimal alphabet
// ---------------------------------------------------------------------------

/// Word `j` of the cipher stream under `key`: the first four digest bytes
/// of the key followed by the word's index.
pub open spec fn stream_word(key: Seq<u8>, j: int) -> u32 {
    let d = sha256_of(key + le8(j as u64));
    (d[0] as u32) | ((d[1] as u32) << 8) | ((d[2] as u32) << 16) | ((d[3] as u32) << 24)
}

fn stream_word_at(key: &Vec<u8>, j: u64) -> (w: u32)
    ensures
        w == stream_word(key@, j as int),
{
    let mut input: Vec<u8> = Vec::new();
    let klen = key.len();
    let mut t: usize = 0;
    while t < klen
        invariant
            t <= klen,
            klen == key@.len(),
            input@ == key@.take(t as int),
        decreases klen - t,
    {
        input.push(key[t]);
        assert(input@ =~= key@.take(t + 1 as int));
        t += 1;
    }
    assert(input@ =~= key@);
    input.push((j & 0xFF) as u8);
    input.push(((j >> 8) & 0xFF) as u8);
    input.push(((j >> 16) & 0xFF) as u8);
    input.push(((j >> 24) & 0xFF) as u8);
    input.push(((j >> 32) & 0xFF) as u8);
    input.push(((j >> 40) & 0xFF) as u8);
    input.push(((j >> 48) & 0xFF) as u8);
    input.push(((j >> 56) & 0xFF) as u8);
    assert(input@ =~= key@ + le8(j));
    let d = sha256(&input);
    (d[0] as u32) | ((d[1] as u32) << 8) | ((d[2] as u32) << 16) | ((d[3] as u32) << 24)
}

/// The lowercase hexadecimal character for a value below 16.
pub open spec fn hex_char_spec(d: u32) -> char {
    if d == 0 { '0' }
    else if d == 1 { '1' }
    else if d == 2 { '2' }
    else if d == 3 { '3' }
    else if d == 4 { '4' }
    else if d == 5 { '5' }
    else if d == 6 { '6' }
    else if d == 7 { '7' }
    else if d == 8 { '8' }
    else if d == 9 { '9' }
    else if d == 10 { 'a' }
    else if d == 11 { 'b' }
    else if d == 12 { 'c' }
    else if d == 13 { 'd' }
    else if d == 14 { 'e' }
    else { 'f' }
}

/// Whether a character is a lowercase hexadecimal digit.
pub open spec fn is_hex_char(c: char) -> bool {
    ('0' <= c && c <= '9') || ('a' <= c && c <= 'f')
}

/// The value of a lowercase hexadecimal digit.
pub open spec fn hex_val_spec(c: char) -> u32 {
    if '0' <= c && c <= '9' {
        (c as u32 - '0' as u32) as u32
    } else {
        (c as u32 - 'a' as u32 + 10) as u32
    }
}

fn hex_char(d: u32) -> (c: char)
    requires
        d < 16,
    ensures
        c == hex_char_spec(d),
{
    match d {
        0 => '0',
        1 => '1',
        2 => '2',
        3 => '3',
        4 => '4',
        5 => '5',
        6 => '6',
        7 => '7',
        8 => '8',
        9 => '9',
        10 => 'a',
        11 => 'b',
        12 => 'c',
        13 => 'd',
        14 => 'e',
        _ => 'f',
    }
}

fn is_hex(c: char) -> (r: bool)
    ensures
        r == is_hex_char(c),
{
    ('0' <= c && c <= '9') || ('a' <= c && c <= 'f')
}

fn hex_val(c: char) -> (v: u32)
    requires
        is_hex_char(c),
    ensures
        v == hex_val_spec(c),
{
    let u = c as u32;
    if c <= '9' {
        u - ('0' as u32)
    } else {
        u - ('a' as u32) + 10
    }
}

// ---------------------------------------------------------------------------
// The deterministic keyed transform
// ---------------------------------------------------------------------------

/// How many Unicode scalar values there are. The cipher shifts each
/// character within this space, so decryption always yields characters,
/// never a failure.
pub const SCALAR_COUNT: u32 = 0x10F800;

/// A character's position in the scalar space: the surrogate gap is
/// closed, so positions are contiguous.
pub open spec fn scalar_index_spec(c: char) -> int {
    if (c as u32) < 0xD800 {
        c as u32 as int
    } else {
        c as u32 - 0x800
    }
}

/// The character at a position of the scalar space.
pub open spec fn scalar_from_index_spec(i: int) -> char {
    if i < 0xD800 {
        (i as u32) as char
    } else {
        ((i + 0x800) as u32) as char
    }
}

/// The scalar space is a bijection between characters and positions.
proof fn lemma_scalar_bijection(c: char)
    ensures
        0 <= scalar_index_spec(c) < SCALAR_COUNT as int,
        scalar_from_index_spec(scalar_index_spec(c)) == c,
{
    vstd::utf8::char_is_scalar(c);
    vstd::utf8::char_u32_cast(c, c as u32);
}

fn scalar_index(c: char) -> (r: u32)
    ensures
        r as int == scalar_index_spec(c),
        r < SCALAR_COUNT,
{
    proof {
        lemma_scalar_bijection(c);
    }
    let v = c as u32;
    if v < 0xD800 {
        v
    } else {
        v - 0x800
    }
}

fn scalar_from_index(i: u32) -> (r: char)
    requires
        i < SCALAR_COUNT,
    ensures
        r == scalar_from_index_spec(i as int),
{
    let v = if i < 0xD800 { i } else { i + 0x800 };
    proof {
        assert(v < 0xD800 || (0xE000 <= v && v <= 0x10FFFF));
    }
    match char_from_u32(v) {
        Some(c) => {
            proof {
                vstd::utf8::char_u32_cast(c, v);
            }
            c
        }
        None => {
            proof {
                assert(false);
            }
            ' '
        }
    }
}

/// Hex nibble `k` (most significant first) of a 32-bit word.
pub open spec fn nib(v: u32, k: int) -> u32 {
    if k == 0 { (v >> 28) & 0xF }
    else if k == 1 { (v >> 24) & 0xF }
    else if k == 2 { (v >> 20) & 0xF }
    else if k == 3 { (v >> 16) & 0xF }
    else if k == 4 { (v >> 12) & 0xF }
    else if k == 5 { (v >> 8) & 0xF }
    else if k == 6 { (v >> 4) & 0xF }
    else { v & 0xF }
}

/// Character `j` of the plaintext, shifted through the scalar space by
/// stream word `j`.
pub open spec fn cipher_word(key: Seq<u8>, p: Seq<char>, j: int) -> u32 {
    (((scalar_index_spec(p[j]) + stream_word(key, j) as int % (SCALAR_COUNT as int))
        % (SCALAR_COUNT as int)) as u32)
}

/// The ciphertext of `p` under `key`: eight lowercase hex characters per
/// plaintext character, each word being the character's scalar position
/// shifted by the keystream.
pub open spec fn encrypt_spec(key: Seq<u8>, p: Seq<char>) -> Seq<char> {
    Seq::new(p.len() * 8, |i: int| hex_char_spec(nib(cipher_word(key, p, i / 8), i % 8)))
}

/// Whether a string has the shape `encrypt` produces: a multiple of eight
/// lowercase hex characters.
pub open spec fn well_formed_cipher(c: Seq<char>) -> bool {
    &&& c.len() % 8 == 0
    &&& forall|i: int| 0 <= i < c.len() ==> is_hex_char(#[trigger] c[i])
}

/// The 32-bit word encoded by block `j` of a well-formed ciphertext.
pub open spec fn parse_word(c: Seq<char>, j: int) -> u32 {
    (hex_val_spec(c[8 * j]) << 28)
        | (hex_val_spec(c[8 * j + 1]) << 24)
        | (hex_val_spec(c[8 * j + 2]) << 20)
        | (hex_val_spec(c[8 * j + 3]) << 16)
        | (hex_val_spec(c[8 * j + 4]) << 12)
        | (hex_val_spec(c[8 * j + 5]) << 8)
        | (hex_val_spec(c[8 * j + 6]) << 4)
        | hex_val_spec(c[8 * j + 7])
}

/// Character `j` recovered from a well-formed ciphertext: the parsed
/// word, shifted back through the scalar space. Every word maps to a
/// character, so decryption of garbage yields garbage characters, never
/// a failure — and distinct words always yield distinct characters.
pub open spec fn plain_char_at(key: Seq<u8>, c: Seq<char>, j: int) -> char {
    let n = SCALAR_COUNT as int;
    let v = parse_word(c, j) as int % n;
    let s = stream_word(key, j) as int % n;
    scalar_from_index_spec((v + n - s) % n)
}

/// What `decrypt` returns: the block-wise recovery on well-formed
/// ciphertext, and the input itself otherwise (`decrypt` has no way to
/// detect ill-formed plaintext content, so it never fails).
pub open spec fn decrypt_spec(key: Seq<u8>, c: Seq<char>) -> Seq<char> {
    if well_formed_cipher(c) {
        Seq::new(c.len() / 8, |j: int| plain_char_at(key, c, j))
    } else {
        c
    }
}

/// Deterministically encrypt `p` under `key`. Same key and plaintext
/// always yield the same ciphertext.
pub fn encrypt(key: &Vec<u8>, p: &str) -> (c: String)
    ensures
        c@ == encrypt_spec(key@, p@),
{
    let n = p.unicode_len();
    let mut out = String::new();
    let mut j: usize = 0;
    while j < n
        invariant
            n == p@.len(),
            j <= n,
            out@ == encrypt_spec(key@, p@).take(8 * j as int),
        decreases n - j,
    {
        let idx = scalar_index(p.get_char(j));
        let s = stream_word_at(key, j as u64) % SCALAR_COUNT;
        let v = (idx + s) % SCALAR_COUNT;
        assert(v == cipher_word(key@, p@, j as int));
        assert(
            (v >> 28) & 0xF < 16 && (v >> 24) & 0xF < 16 && (v >> 20) & 0xF < 16
            && (v >> 16) & 0xF < 16 && (v >> 12) & 0xF < 16 && (v >> 8) & 0xF < 16
            && (v >> 4) & 0xF < 16 && v & 0xF < 16
        ) by (bit_vector);
        push_char(&mut out, hex_char((v >> 28) & 0xF));
        push_char(&mut out, hex_char((v >> 24) & 0xF));
        push_char(&mut out, hex_char((v >> 20) & 0xF));
        push_char(&mut out, hex_char((v >> 16) & 0xF));
        push_char(&mut out, hex_char((v >> 12) & 0xF));
        push_char(&mut out, hex_char((v >> 8) & 0xF));
        push_char(&mut out, hex_char((v >> 4) & 0xF));
        push_char(&mut out, hex_char(v & 0xF));
        proof {
            let es = encrypt_spec(key@, p@);
            assert forall|i: int| 8 * j <= i < 8 * (j + 1) implies
                es[i] == hex_char_spec(nib(v, i - 8 * j)) by {
                assert(i / 8 == j && i % 8 == i - 8 * j) by (nonlinear_arith)
                    requires 8 * j <= i < 8 * (j + 1), j >= 0;
            }
            assert(out@ =~= es.take(8 * (j + 1) as int));
        }
        j += 1;
    }
    proof {
        assert(out@ =~= encrypt_spec(key@, p@));
    }
    out
}

fn parse_block(c: &str, j: usize) -> (v: u32)
    requires
        8 * (j as int) + 8 <= c@.len(),
        c@.len() <= usize::MAX,
        well_formed_cipher(c@),
    ensures
        v == parse_word(c@, j as int),
{
    (hex_val(c.get_char(8 * j)) << 28)
        | (hex_val(c.get_char(8 * j + 1)) << 24)
        | (hex_val(c.get_char(8 * j + 2)) << 20)
        | (hex_val(c.get_char(8 * j + 3)) << 16)
        | (hex_val(c.get_char(8 * j + 4)) << 12)
        | (hex_val(c.get_char(8 * j + 5)) << 8)
        | (hex_val(c.get_char(8 * j + 6)) << 4)
        | hex_val(c.get_char(8 * j + 7))
}

/// Deterministically invert `encrypt` under the same key. With a wrong
/// key the result is garbage, never a failure; input that is not
/// well-formed ciphertext is handed back unchanged.
pub fn decrypt(key: &Vec<u8>, c: &str) -> (p: String)
    ensures
        p@ == decrypt_spec(key@, c@),
{
    let n = c.unicode_len();
    if n % 8 != 0 {
        return String::from_str(c);
    }
    let mut i: usize = 0;
    while i < n
        invariant
            n == c@.len(),
            i <= n,
            forall|t: int| 0 <= t < i ==> is_hex_char(#[trigger] c@[t]),
        decreases n - i,
    {
        if !is_hex(c.get_char(i)) {
            return String::from_str(c);
        }
        i += 1;
    }
    assert(well_formed_cipher(c@));
    let m = n / 8;
    let mut out = String::new();
    let mut j: usize = 0;
    while j < m
        invariant
            n == c@.len(),
            n % 8 == 0,
            m == n / 8,
            j <= m,
            well_formed_cipher(c@),
            out@ == Seq::new(j as nat, |t: int| plain_char_at(key@, c@, t)),
        decreases m - j,
    {
        assert(8 * j + 8 <= n);
        let v = parse_block(c, j) % SCALAR_COUNT;
        let s = stream_word_at(key, j as u64) % SCALAR_COUNT;
        let ch = scalar_from_index((v + SCALAR_COUNT - s) % SCALAR_COUNT);
        proof {
            assert(ch == plain_char_at(key@, c@, j as int));
        }
        push_char(&mut out, ch);
        proof {
            assert(out@ =~= Seq::new((j + 1) as nat, |t: int| plain_char_at(key@, c@, t)));
        }
        j += 1;
    }
    proof {
        assert(out@ =~= decrypt_spec(key@, c@));
    }
    out
}

// ---------------------------------------------------------------------------
// Law: the transform round-trips exactly
// ---------------------------------------------------------------------------

proof fn lemma_nib_bound(v: u32, k: int)
    ensures
        nib(v, k) < 16,
{
    assert(
        (v >> 28) & 0xF < 16 && (v >> 24) & 0xF < 16 && (v >> 20) & 0xF < 16
        && (v >> 16) & 0xF < 16 && (v >> 12) & 0xF < 16 && (v >> 8) & 0xF < 16
        && (v >> 4) & 0xF < 16 && v & 0xF < 16
    ) by (bit_vector);
}

proof fn lemma_hex_inverse(d: u32)
    requires
        d < 16,
    ensures
        is_hex_char(hex_char_spec(d)),
        hex_val_spec(hex_char_spec(d)) == d,
{
}

proof fn lemma_enc_char(key: Seq<u8>, p: Seq<char>, j: int, k: int)
    requires
        0 <= j < p.len(),
        0 <= k < 8,
    ensures
        hex_val_spec(encrypt_spec(key, p)[8 * j + k]) == nib(cipher_word(key, p, j), k),
{
    assert((8 * j + k) / 8 == j && (8 * j + k) % 8 == k) by (nonlinear_arith)
        requires 0 <= k < 8, 0 <= j;
    assert(0 <= 8 * j + k < p.len() * 8) by (nonlinear_arith)
        requires 0 <= k < 8, 0 <= j < p.len();
    lemma_nib_bound(cipher_word(key, p, j), k);
    lemma_hex_inverse(nib(cipher_word(key, p, j), k));
}

proof fn lemma_word_from_nibs(v: u32)
    ensures
        (((v >> 28) & 0xF) << 28)
            | (((v >> 24) & 0xF) << 24)
            | (((v >> 20) & 0xF) << 20)
            | (((v >> 16) & 0xF) << 16)
            | (((v >> 12) & 0xF) << 12)
            | (((v >> 8) & 0xF) << 8)
            | (((v >> 4) & 0xF) << 4)
            | (v & 0xF) == v,
{
    assert(
        (((v >> 28) & 0xF) << 28)
            | (((v >> 24) & 0xF) << 24)
            | (((v >> 20) & 0xF) << 20)
            | (((v >> 16) & 0xF) << 16)
            | (((v >> 12) & 0xF) << 12)
            | (((v >> 8) & 0xF) << 8)
            | (((v >> 4) & 0xF) << 4)
            | (v & 0xF) == v
    ) by (bit_vector);
}

/// Shifting forward and back through the scalar space is the identity.
proof fn lemma_shift_round(idx: int, s: int)
    requires
        0 <= idx < SCALAR_COUNT as int,
        0 <= s < SCALAR_COUNT as int,
    ensures
        ((idx + s) % (SCALAR_COUNT as int) + SCALAR_COUNT as int - s) % (SCALAR_COUNT as int)
            == idx,
{
    let n = SCALAR_COUNT as int;
    assert((idx + s) % n == if idx + s < n { idx + s } else { idx + s - n })
        by (nonlinear_arith)
        requires 0 <= idx < n, 0 <= s < n;
    let e = (idx + s) % n;
    assert((e + n - s) % n == idx) by (nonlinear_arith)
        requires 0 <= idx < n, 0 <= s < n,
            e == if idx + s < n { idx + s } else { idx + s - n };
}

/// Law: for every key and plaintext, decrypting the encryption gives the
/// plaintext back exactly.
pub proof fn lemma_cipher_round_trip(key: Seq<u8>, p: Seq<char>)
    ensures
        decrypt_spec(key, encrypt_spec(key, p)) == p,
{
    let c = encrypt_spec(key, p);
    assert(c.len() == p.len() * 8);
    assert((p.len() * 8) % 8 == 0 && (p.len() * 8) / 8 == p.len()) by (nonlinear_arith);
    assert forall|i: int| 0 <= i < c.len() implies is_hex_char(#[trigger] c[i]) by {
        lemma_nib_bound(cipher_word(key, p, i / 8), i % 8);
        lemma_hex_inverse(nib(cipher_word(key, p, i / 8), i % 8));
    }
    assert(well_formed_cipher(c));
    assert forall|j: int| 0 <= j < p.len() implies
        plain_char_at(key, c, j) == p[j] by {
        let v = cipher_word(key, p, j);
        lemma_enc_char(key, p, j, 0);
        lemma_enc_char(key, p, j, 1);
        lemma_enc_char(key, p, j, 2);
        lemma_enc_char(key, p, j, 3);
        lemma_enc_char(key, p, j, 4);
        lemma_enc_char(key, p, j, 5);
        lemma_enc_char(key, p, j, 6);
        lemma_enc_char(key, p, j, 7);
        assert(hex_val_spec(c[8 * j]) == nib(v, 0));
        lemma_word_from_nibs(v);
        assert(parse_word(c, j) == v);
        let n = SCALAR_COUNT as int;
        lemma_scalar_bijection(p[j]);
        let idx = scalar_index_spec(p[j]);
        let w = stream_word(key, j) as int;
        let s = w % n;
        assert(0 <= s < n) by (nonlinear_arith)
            requires 0 <= w, s == w % n, n == 0x10F800;
        assert(v as int == (idx + s) % n);
        assert(0 <= (idx + s) % n < n) by (nonlinear_arith)
            requires 0 <= idx + s, n == 0x10F800;
        assert((v as int) % n == v as int) by (nonlinear_arith)
            requires 0 <= (v as int), (v as int) < n;
        lemma_shift_round(idx, s);
    }
    assert(decrypt_spec(key, c) =~= p);
}

// ---------------------------------------------------------------------------
// The salted one-way hash
// ---------------------------------------------------------------------------

/// What the Argon2 hash of `input` under the base64 `salt` is: `Some`
/// digest exactly when the salt is accepted and hashing succeeds, `None`
/// otherwise. The digest has no short description, so it is only named
/// here; the trusted wrapper below ties the name to the real computation.
/// Both the outcome and the digest depend on the salt and input alone.
pub uninterp spec fn argon_digest_of(salt: Seq<char>, input: Seq<char>) -> Option<Seq<char>>;

/// Relies on `argon2::password_hash::SaltString::from_b64` (which accepts a
/// string of 4 to 64 characters drawn from `[A-Za-z0-9/+.-]`) and
/// `argon2::Argon2::hash_password` with the default parameters: the
/// resulting PHC digest string, like the success of the two calls, is a
/// deterministic function of the salt and input alone.
#[verifier::external_body]
fn argon_hash(salt: &str, input: &str) -> (r: Option<String>)
    ensures
        (match r {
            Some(v) => Some(v@),
            None => None,
        }) == argon_digest_of(salt@, input@),
{
    let ss = match argon2::password_hash::SaltString::from_b64(salt) {
        Ok(ss) => ss,
        Err(_) => return None,
    };
    let hasher = argon2::Argon2::default();
    match argon2::PasswordHasher::hash_password(&hasher, input.as_bytes(), &ss) {
        Ok(h) => Some(h.to_string()),
        Err(_) => None,
    }
}

/// Hash `input` one way under the given base64 `salt`. Deterministic: the
/// same salt and input always yield the same digest. A malformed salt is
/// rejected with `CryptoFormatError` rather than a panic.
pub fn salted_hash(salt: &str, input: &str) -> (r: Result<String, DeemakError>)
    ensures
        r is Ok <==> argon_digest_of(salt@, input@) is Some,
        r matches Ok(v) ==> argon_digest_of(salt@, input@) == Some(v@),
        r matches Err(e) ==> e == DeemakError::CryptoFormatError,
{
    match argon_hash(salt, input) {
        Some(v) => Ok(v),
        None => Err(DeemakError::CryptoFormatError),
    }
}

/// Law: `salted_hash` is deterministic — two results obtained for the same
/// salt and input are equal.
pub proof fn lemma_salted_hash_deterministic(
    salt: Seq<char>,
    input: Seq<char>,
    r1: Option<Seq<char>>,
    r2: Option<Seq<char>>,
)
    requires
        r1 == argon_digest_of(salt, input),
        r2 == argon_digest_of(salt, input),
    ensures
        r1 == r2,
{
}

// ---------------------------------------------------------------------------
// Salt generation
// ---------------------------------------------------------------------------

/// Whether a string is acceptable as a base64 salt: 4 to 64 characters,
/// each a letter, digit, `/`, `+`, `.` or `-`.
pub open spec fn valid_salt_b64(s: Seq<char>) -> bool {
    &&& 4 <= s.len() <= 64
    &&& forall|i: int| 0 <= i < s.len() ==> salt_char_ok(#[trigger] s[i])
}

/// Whether a character may appear in a base64 salt.
pub open spec fn salt_char_ok(c: char) -> bool {
    ||| 'a' <= c && c <= 'z'
    ||| 'A' <= c && c <= 'Z'
    ||| '0' <= c && c <= '9'
    ||| c == '/'
    ||| c == '+'
    ||| c == '.'
    ||| c == '-'
}

/// Relies on `rand::random`: sixteen bytes from the thread-local generator.
/// Nothing is promised of the values.
#[verifier::external_body]
fn random_bytes_16() -> (r: [u8; 16]) {
    rand::random::<[u8; 16]>()
}

/// Relies on `argon2::password_hash::SaltString::encode_b64`: sixteen bytes
/// encode (without fail) to 22 unpadded base64 characters, all within the
/// salt alphabet.
#[verifier::external_body]
fn encode_salt_b64(bytes: &[u8; 16]) -> (r: String)
    ensures
        valid_salt_b64(r@),
{
    let ss = argon2::password_hash::SaltString::encode_b64(bytes)
        .expect("16 bytes are within the salt length limit");
    ss.as_str().to_string()
}

/// Produce a fresh random base64 salt, suitable for `salted_hash`.
pub fn generate_salt() -> (r: String)
    ensures
        valid_salt_b64(r@),
{
    let bytes = random_bytes_16();
    encode_salt_b64(&bytes)
}

} // verus!
