//! AES-128-ECB with PKCS#7 padding over base64-encoded keys, as the iLink CDN
//! uses it for media.
use aes::cipher::{BlockDecrypt, BlockEncrypt, KeyInit};
use aes::Aes128;
use base64::Engine;
use rand::RngCore;
use vstd::prelude::*;

verus! {

/// The AES block size in bytes.
pub const BLOCK_SIZE: usize = 16;

/// Why an AES key was refused.
#[derive(Debug, PartialEq, Eq, Structural)]
pub enum CryptoError {
    /// The key is not valid standard base64.
    KeyDecode,
    /// The key decoded to this many bytes instead of 16.
    InvalidKeyLength(usize),
}

/// The bytes that standard base64 (with padding) decodes from `input`,
/// or `None` when `input` is not valid standard base64.
pub uninterp spec fn base64_standard_decode(input: Seq<char>) -> Option<Seq<u8>>;

/// The standard base64 (with padding) encoding of `input`.
pub uninterp spec fn base64_standard_encode(input: Seq<u8>) -> Seq<char>;

/// AES-128 encryption of one 16-byte block under a 16-byte key.
pub uninterp spec fn aes128_encrypt_block(key: Seq<u8>, block: Seq<u8>) -> Seq<u8>;

/// AES-128 decryption of one 16-byte block under a 16-byte key.
pub uninterp spec fn aes128_decrypt_block(key: Seq<u8>, block: Seq<u8>) -> Seq<u8>;

#[verifier::external_type_specification]
#[verifier::external_body]
pub struct ExDecodeError(base64::DecodeError);

/// `base64::engine::general_purpose::STANDARD.decode`: decodes standard base64
/// with padding. The result is the named decoding of the input; an error comes
/// exactly when the name says the input does not decode.
#[verifier::external_body]
fn base64_decode(input: &str) -> (r: Result<Vec<u8>, base64::DecodeError>)
    ensures
        match r {
            Ok(v) => base64_standard_decode(input@) == Some(v@),
            Err(_) => base64_standard_decode(input@) is None,
        },
{
    base64::engine::general_purpose::STANDARD.decode(input)
}

/// `base64::engine::general_purpose::STANDARD.encode`: the result is the named
/// encoding, and decoding it gives back the input (the crate documents the two
/// as inverse).
#[verifier::external_body]
pub(crate) fn base64_encode(input: &[u8]) -> (r: String)
    ensures
        r@ == base64_standard_encode(input@),
        base64_standard_decode(r@) == Some(input@),
{
    base64::engine::general_purpose::STANDARD.encode(input)
}

/// `Aes128::encrypt_block` with a cipher built from `key` by `KeyInit::new`:
/// the result is the named encryption of `block`, 16 bytes long.
#[verifier::external_body]
fn aes128_encrypt(key: &[u8], block: &[u8]) -> (r: Vec<u8>)
    requires
        key@.len() == 16,
        block@.len() == 16,
    ensures
        r@ == aes128_encrypt_block(key@, block@),
        r@.len() == 16,
{
    let cipher = Aes128::new(aes::cipher::generic_array::GenericArray::from_slice(key));
    let mut b = aes::Block::clone_from_slice(block);
    cipher.encrypt_block(&mut b);
    b.to_vec()
}

/// `Aes128::decrypt_block` with a cipher built from `key` by `KeyInit::new`:
/// the result is the named decryption of `block`, 16 bytes long, and it is the
/// block whose encryption under `key` is `block` (AES-128 is a permutation of
/// blocks and decryption is its inverse).
#[verifier::external_body]
fn aes128_decrypt(key: &[u8], block: &[u8]) -> (r: Vec<u8>)
    requires
        key@.len() == 16,
        block@.len() == 16,
    ensures
        r@ == aes128_decrypt_block(key@, block@),
        r@.len() == 16,
        forall|p: Seq<u8>|
            p.len() == 16 && #[trigger] block16(aes128_encrypt_block(key@, p)) == block@ ==> r@ == p,
{
    let cipher = Aes128::new(aes::cipher::generic_array::GenericArray::from_slice(key));
    let mut b = aes::Block::clone_from_slice(block);
    cipher.decrypt_block(&mut b);
    b.to_vec()
}

/// `rand::thread_rng().fill_bytes` on a 16-byte buffer: 16 random bytes.
#[verifier::external_body]
fn random_bytes_16() -> (r: Vec<u8>)
    ensures
        r@.len() == 16,
{
    let mut key = [0u8; 16];
    rand::thread_rng().fill_bytes(&mut key);
    key.to_vec()
}

/// The first 16 bytes of `s`, padded with zeros: a block of exactly 16 bytes.
pub open spec fn block16(s: Seq<u8>) -> Seq<u8> {
    Seq::new(16, |i: int| if i < s.len() { s[i] } else { 0u8 })
}

/// ECB encryption: each full 16-byte block encrypted in turn; a trailing
/// partial block is left as it is.
pub open spec fn ecb_encrypt(key: Seq<u8>, data: Seq<u8>) -> Seq<u8>
    decreases data.len(),
{
    if data.len() < 16 {
        data
    } else {
        block16(aes128_encrypt_block(key, data.take(16))) + ecb_encrypt(key, data.skip(16))
    }
}

/// ECB decryption: each full 16-byte block decrypted in turn; a trailing
/// partial block is left as it is.
pub open spec fn ecb_decrypt(key: Seq<u8>, data: Seq<u8>) -> Seq<u8>
    decreases data.len(),
{
    if data.len() < 16 {
        data
    } else {
        block16(aes128_decrypt_block(key, data.take(16))) + ecb_decrypt(key, data.skip(16))
    }
}

/// The PKCS#7 padding length for a message of `len` bytes: 1 to 16.
pub open spec fn pad_len(len: nat) -> nat {
    (16 - len % 16) as nat
}

/// PKCS#7 padding to a multiple of 16 bytes.
pub open spec fn pkcs7_pad(p: Seq<u8>) -> Seq<u8> {
    p + Seq::new(pad_len(p.len()), |i: int| pad_len(p.len()) as u8)
}

/// The trailing padding is well formed: its last byte `k` is between 1 and 16
/// and the last `k` bytes all equal `k`.
pub open spec fn has_valid_padding(d: Seq<u8>) -> bool {
    d.len() > 0 && {
        let k = d.last() as int;
        0 < k <= 16 && d.len() >= k && forall|j: int| d.len() - k <= j < d.len() ==> d[j] == k
    }
}

/// PKCS#7 unpadding as the decryption does it: well-formed padding is removed,
/// anything else is left in place.
pub open spec fn pkcs7_unpad(d: Seq<u8>) -> Seq<u8> {
    if has_valid_padding(d) {
        d.take(d.len() - d.last() as int)
    } else {
        d
    }
}

/// The key that a base64 key string stands for, when it is a valid 16-byte key.
pub open spec fn aes_key_of(key_b64: Seq<char>) -> Option<Seq<u8>> {
    match base64_standard_decode(key_b64) {
        Some(k) => if k.len() == 16 {
            Some(k)
        } else {
            None
        },
        None => None,
    }
}

/// The error for a key string that is not a valid AES-128 key.
pub open spec fn key_error(key_b64: Seq<char>) -> CryptoError {
    match base64_standard_decode(key_b64) {
        Some(k) => CryptoError::InvalidKeyLength(k.len() as usize),
        None => CryptoError::KeyDecode,
    }
}

/// Removing the padding undoes adding it.
pub proof fn lemma_pkcs7_unpad_pad(p: Seq<u8>)
    ensures
        pkcs7_pad(p).len() % 16 == 0,
        pkcs7_unpad(pkcs7_pad(p)) == p,
{
    let q = pkcs7_pad(p);
    let n = pad_len(p.len());
    assert(1 <= n <= 16);
    assert(q.len() == p.len() + n);
    assert(q.last() == n as u8);
    assert(has_valid_padding(q));
    assert(q.take(q.len() - n) =~= p);
}

proof fn lemma_ecb_encrypt_len(key: Seq<u8>, data: Seq<u8>)
    ensures
        ecb_encrypt(key, data).len() == data.len(),
    decreases data.len(),
{
    if data.len() >= 16 {
        lemma_ecb_encrypt_len(key, data.skip(16));
    }
}

/// Block `i` (a multiple of 16) of an ECB encryption is the encryption of
/// block `i` of the plaintext.
proof fn lemma_ecb_encrypt_block(key: Seq<u8>, q: Seq<u8>, i: int)
    requires
        i % 16 == 0,
        0 <= i,
        i + 16 <= q.len(),
    ensures
        ecb_encrypt(key, q).subrange(i, i + 16) == block16(aes128_encrypt_block(key, q.subrange(i, i + 16))),
    decreases i,
{
    let e = ecb_encrypt(key, q);
    let b = block16(aes128_encrypt_block(key, q.take(16)));
    lemma_ecb_encrypt_len(key, q.skip(16));
    if i == 0 {
        assert(e.subrange(0, 16) =~= b);
        assert(q.take(16) =~= q.subrange(0, 16));
    } else {
        lemma_ecb_encrypt_block(key, q.skip(16), i - 16);
        assert(e.subrange(i, i + 16) =~= ecb_encrypt(key, q.skip(16)).subrange(i - 16, i));
        assert(q.skip(16).subrange(i - 16, i) =~= q.subrange(i, i + 16));
    }
}

/// A copy of `v[from..to]`.
fn bytes_range(v: &[u8], from: usize, to: usize) -> (r: Vec<u8>)
    requires
        from <= to <= v@.len(),
    ensures
        r@ == v@.subrange(from as int, to as int),
{
    let mut r: Vec<u8> = Vec::new();
    let mut i = from;
    while i < to
        invariant
            from <= i <= to <= v@.len(),
            r@ == v@.subrange(from as int, i as int),
        decreases to - i,
    {
        r.push(v[i]);
        i = i + 1;
        assert(r@ =~= v@.subrange(from as int, i as int));
    }
    r
}

/// Decodes and checks a base64 AES key.
fn decode_key(key_b64: &str) -> (r: Result<Vec<u8>, CryptoError>)
    ensures
        match r {
            Ok(k) => aes_key_of(key_b64@) == Some(k@),
            Err(e) => aes_key_of(key_b64@) is None && e == key_error(key_b64@),
        },
{
    match base64_decode(key_b64) {
        Ok(k) => {
            if k.len() != BLOCK_SIZE {
                Err(CryptoError::InvalidKeyLength(k.len()))
            } else {
                Ok(k)
            }
        },
        Err(_) => Err(CryptoError::KeyDecode),
    }
}

/// AES-128-ECB encryption with PKCS#7 padding, under a base64-encoded key.
///
/// Succeeds exactly when the key decodes to 16 bytes; the ciphertext is the
/// ECB encryption of the padded plaintext.
pub fn aes_ecb_encrypt(plaintext: &[u8], key_b64: &str) -> (r: Result<Vec<u8>, CryptoError>)
    ensures
        match r {
            Ok(c) => aes_key_of(key_b64@) matches Some(k) && c@ == ecb_encrypt(k, pkcs7_pad(plaintext@)),
            Err(e) => aes_key_of(key_b64@) is None && e == key_error(key_b64@),
        },
{
    let key = match decode_key(key_b64) {
        Ok(k) => k,
        Err(e) => return Err(e),
    };
    let n = plaintext.len();
    let pad: usize = BLOCK_SIZE - (n % BLOCK_SIZE);
    let ghost padded_spec = pkcs7_pad(plaintext@);
    let mut padded = bytes_range(plaintext, 0, n);
    let mut j: usize = 0;
    assert(plaintext@.subrange(0, n as int) =~= plaintext@);
    while j < pad
        invariant
            n == plaintext@.len(),
            pad == pad_len(n as nat),
            1 <= pad <= 16,
            j <= pad,
            padded@ == plaintext@ + Seq::new(j as nat, |i: int| pad as u8),
        decreases pad - j,
    {
        padded.push(pad as u8);
        j = j + 1;
        assert(padded@ =~= plaintext@ + Seq::new(j as nat, |i: int| pad as u8));
    }
    assert(padded@ == padded_spec);
    proof {
        lemma_pkcs7_unpad_pad(plaintext@);
    }
    let total = padded.len();
    let mut out: Vec<u8> = Vec::new();
    let mut i: usize = 0;
    assert(padded@.skip(0) =~= padded@);
    while i < total
        invariant
            total == padded@.len(),
            total % 16 == 0,
            i % 16 == 0,
            i <= total,
            key@.len() == 16,
            out@ + ecb_encrypt(key@, padded@.skip(i as int)) == ecb_encrypt(key@, padded@),
        decreases total - i,
    {
        let block = bytes_range(&padded, i, i + BLOCK_SIZE);
        let enc = aes128_encrypt(&key, &block);
        proof {
            let rest = padded@.skip(i as int);
            assert(rest.take(16) =~= block@);
            assert(rest.skip(16) =~= padded@.skip(i + 16));
            assert(block16(aes128_encrypt_block(key@, block@)) =~= enc@);
        }
        let ghost before = out@;
        let mut k: usize = 0;
        while k < 16
            invariant
                k <= 16,
                enc@.len() == 16,
                out@ == before + enc@.take(k as int),
            decreases 16 - k,
        {
            out.push(enc[k]);
            k = k + 1;
            assert(out@ =~= before + enc@.take(k as int));
        }
        assert(enc@.take(16) =~= enc@);
        i = i + BLOCK_SIZE;
        assert(out@ + ecb_encrypt(key@, padded@.skip(i as int)) =~= ecb_encrypt(key@, padded@));
    }
    assert(padded@.skip(total as int) =~= Seq::<u8>::empty());
    assert(out@ + Seq::<u8>::empty() =~= out@);
    Ok(out)
}

/// AES-128-ECB decryption with PKCS#7 unpadding, under a base64-encoded key.
///
/// Succeeds exactly when the key decodes to 16 bytes. Every full block is
/// decrypted (a trailing partial block is kept as it is), then well-formed
/// padding is removed. Decrypting what `aes_ecb_encrypt` produced under the
/// same key gives back the plaintext.
pub fn aes_ecb_decrypt(ciphertext: &[u8], key_b64: &str) -> (r: Result<Vec<u8>, CryptoError>)
    ensures
        match r {
            Ok(p) => aes_key_of(key_b64@) matches Some(k) && p@ == pkcs7_unpad(ecb_decrypt(k, ciphertext@)),
            Err(e) => aes_key_of(key_b64@) is None && e == key_error(key_b64@),
        },
        forall|p: Seq<u8>|
            (aes_key_of(key_b64@) is Some && #[trigger] ecb_encrypt(aes_key_of(key_b64@)->0, pkcs7_pad(p))
                == ciphertext@)
                ==> (r matches Ok(v) && v@ == p),
{
    let key = match decode_key(key_b64) {
        Ok(k) => k,
        Err(e) => return Err(e),
    };
    let n = ciphertext.len();
    let mut out: Vec<u8> = Vec::new();
    let mut i: usize = 0;
    assert(ciphertext@.skip(0) =~= ciphertext@);
    while n - i >= BLOCK_SIZE
        invariant
            n == ciphertext@.len(),
            i % 16 == 0,
            i <= n,
            key@.len() == 16,
            out@.len() == i,
            out@ + ecb_decrypt(key@, ciphertext@.skip(i as int)) == ecb_decrypt(key@, ciphertext@),
            forall|p: Seq<u8>| #[trigger] ecb_encrypt(key@, pkcs7_pad(p)) == ciphertext@
                ==> out@ == pkcs7_pad(p).take(i as int),
        decreases n - i,
    {
        let block = bytes_range(ciphertext, i, i + BLOCK_SIZE);
        let dec = aes128_decrypt(&key, &block);
        proof {
            let rest = ciphertext@.skip(i as int);
            assert(rest.take(16) =~= block@);
            assert(rest.skip(16) =~= ciphertext@.skip(i + 16));
            assert(block16(aes128_decrypt_block(key@, block@)) =~= dec@);
        }
        let ghost before = out@;
        let mut k: usize = 0;
        while k < 16
            invariant
                k <= 16,
                dec@.len() == 16,
                out@ == before + dec@.take(k as int),
            decreases 16 - k,
        {
            out.push(dec[k]);
            k = k + 1;
            assert(out@ =~= before + dec@.take(k as int));
        }
        assert(dec@.take(16) =~= dec@);
        proof {
            assert forall|p: Seq<u8>| #[trigger] ecb_encrypt(key@, pkcs7_pad(p)) == ciphertext@
                implies out@ == pkcs7_pad(p).take(i + 16) by {
                let q = pkcs7_pad(p);
                lemma_pkcs7_unpad_pad(p);
                lemma_ecb_encrypt_len(key@, q);
                lemma_ecb_encrypt_block(key@, q, i as int);
                assert(block@ == ciphertext@.subrange(i as int, i + 16));
                assert(block16(aes128_encrypt_block(key@, q.subrange(i as int, i + 16))) == block@);
                assert(dec@ == q.subrange(i as int, i + 16));
                assert(before == q.take(i as int));
                assert(out@ =~= q.take(i + 16));
            }
        }
        i = i + BLOCK_SIZE;
        assert(out@ + ecb_decrypt(key@, ciphertext@.skip(i as int)) =~= ecb_decrypt(key@, ciphertext@));
    }
    let tail = bytes_range(ciphertext, i, n);
    let ghost before_tail = out@;
    let mut k: usize = 0;
    while k < tail.len()
        invariant
            k <= tail@.len(),
            out@ == before_tail + tail@.take(k as int),
        decreases tail@.len() - k,
    {
        out.push(tail[k]);
        k = k + 1;
        assert(out@ =~= before_tail + tail@.take(k as int));
    }
    proof {
        assert(tail@.take(tail@.len() as int) =~= tail@);
        let rest = ciphertext@.skip(i as int);
        assert(rest.len() < 16);
        assert(ecb_decrypt(key@, rest) == rest);
        assert(rest =~= tail@);
        assert(out@ == ecb_decrypt(key@, ciphertext@));
        assert forall|p: Seq<u8>| #[trigger] ecb_encrypt(key@, pkcs7_pad(p)) == ciphertext@
            implies out@ == pkcs7_pad(p) by {
            lemma_pkcs7_unpad_pad(p);
            lemma_ecb_encrypt_len(key@, pkcs7_pad(p));
            assert(tail@.len() == 0);
            assert(pkcs7_pad(p).take(i as int) =~= pkcs7_pad(p));
        }
    }
    let plain = unpad(out);
    proof {
        assert forall|p: Seq<u8>| #[trigger] ecb_encrypt(key@, pkcs7_pad(p)) == ciphertext@
            implies plain@ == p by {
            lemma_pkcs7_unpad_pad(p);
        }
    }
    Ok(plain)
}

/// Removes well-formed PKCS#7 padding.
fn unpad(d: Vec<u8>) -> (r: Vec<u8>)
    ensures
        r@ == pkcs7_unpad(d@),
{
    let n = d.len();
    if n == 0 {
        return d;
    }
    let k = d[n - 1] as usize;
    if k == 0 || k > BLOCK_SIZE || n < k {
        return d;
    }
    let start = n - k;
    let mut j = start;
    while j < n
        invariant
            start <= j <= n == d@.len(),
            k == d@.last() as int,
            start == n - k,
            forall|m: int| start <= m < j ==> d@[m] == k,
        decreases n - j,
    {
        if d[j] as usize != k {
            assert(!has_valid_padding(d@));
            return d;
        }
        j = j + 1;
    }
    assert(has_valid_padding(d@));
    let ghost orig = d@;
    let mut d = d;
    d.truncate(start);
    assert(d@ =~= pkcs7_unpad(orig));
    d
}

/// A fresh random AES-128 key, base64-encoded; it is always a valid key for
/// `aes_ecb_encrypt` and `aes_ecb_decrypt`.
pub fn generate_aes_key() -> (r: String)
    ensures
        aes_key_of(r@) is Some,
{
    let key = random_bytes_16();
    base64_encode(&key)
}

impl CryptoError {
    /// A human-readable description of the error.
    pub fn message(&self) -> (r: String)
        ensures
            self matches CryptoError::KeyDecode ==> r@ == "解码 AES key 失败"@,
            self matches CryptoError::InvalidKeyLength(n) ==> r@ == "AES key 长度无效: 期望 16 字节, 实际 "@
                + crate::text::decimal(n as nat) + " 字节"@,
    {
        match self {
            CryptoError::KeyDecode => String::from_str("解码 AES key 失败"),
            CryptoError::InvalidKeyLength(n) => {
                let mut s = String::from_str("AES key 长度无效: 期望 16 字节, 实际 ");
                let digits = crate::text::u64_to_decimal(*n as u64);
                let d = crate::text::string_from(&digits);
                s.append(d.as_str());
                s.append(" 字节");
                s
            },
        }
    }
}

} // verus!
