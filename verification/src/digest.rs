//! Digests, encodings, ciphers and random bytes.
use crate::text;
use vstd::prelude::*;
use vstd::utf8::*;
use base64::Engine as _;
use aes::cipher::{BlockCipherEncrypt as _, KeyInit as _};
use sha2::Digest as _;
use vstd::arithmetic::power::pow;

verus! {

/// The SHA-256 digest of a byte string.
pub uninterp spec fn sha256_of(bytes: Seq<u8>) -> Seq<u8>;

/// `sha2::Sha256::digest`: 32 bytes that depend on the input alone.
#[verifier::external_body]
pub(crate) fn sha256(bytes: &[u8]) -> (digest: Vec<u8>)
    ensures
        digest@ == sha256_of(bytes@),
        digest@.len() == 32,
{
    sha2::Sha256::digest(bytes).to_vec()
}

/// The MD5 digest of a byte string.
pub uninterp spec fn md5_of(bytes: Seq<u8>) -> Seq<u8>;

/// `md5::Md5::digest`: 16 bytes that depend on the input alone.
#[verifier::external_body]
pub(crate) fn md5(bytes: &[u8]) -> (digest: Vec<u8>)
    ensures
        digest@ == md5_of(bytes@),
        digest@.len() == 16,
{
    md5::Md5::digest(bytes).to_vec()
}

/// Whether a character belongs to the standard base64 alphabet.
pub open spec fn is_base64(c: char) -> bool {
    'A' <= c <= 'Z' || 'a' <= c <= 'z' || '0' <= c <= '9' || c == '+' || c == '/'
}

/// The standard base64 form of a byte string, with padding.
pub uninterp spec fn base64_of(bytes: Seq<u8>) -> Seq<char>;

/// `base64::engine::general_purpose::STANDARD.encode`: four characters of the
/// alphabet or padding for every three bytes begun.
#[verifier::external_body]
pub(crate) fn base64(bytes: &[u8]) -> (encoded: String)
    ensures
        encoded@ == base64_of(bytes@),
        encoded@.len() == (bytes@.len() + 2) / 3 * 4,
        forall|i: int|
            0 <= i < encoded@.len() ==> is_base64(#[trigger] encoded@[i]) || encoded@[i] == '=',
{
    base64::engine::general_purpose::STANDARD.encode(bytes)
}

/// The URL-safe base64 form of a byte string, without padding.
pub uninterp spec fn base64_url_of(bytes: Seq<u8>) -> Seq<char>;

/// Whether a character belongs to the URL-safe base64 alphabet.
pub open spec fn is_base64_url(c: char) -> bool {
    'A' <= c <= 'Z' || 'a' <= c <= 'z' || '0' <= c <= '9' || c == '-' || c == '_'
}

/// `base64::engine::general_purpose::URL_SAFE_NO_PAD.encode`: four characters of
/// the alphabet for every three bytes, and one more than the bytes that are left.
#[verifier::external_body]
pub(crate) fn base64_url(bytes: &[u8]) -> (encoded: String)
    ensures
        encoded@ == base64_url_of(bytes@),
        encoded@.len() == (bytes@.len() * 4 + 2) / 3,
        forall|i: int| 0 <= i < encoded@.len() ==> is_base64_url(#[trigger] encoded@[i]),
{
    base64::engine::general_purpose::URL_SAFE_NO_PAD.encode(bytes)
}

/// What an unpadded URL-safe base64 text decodes to.
pub uninterp spec fn base64_url_decoded(encoded: Seq<char>) -> Option<Seq<u8>>;

/// `base64::engine::general_purpose::URL_SAFE_NO_PAD.decode`: the bytes, or
/// nothing where the text is not of that form. It depends on the text alone.
#[verifier::external_body]
pub(crate) fn decode_base64_url(encoded: &str) -> (bytes: Option<Vec<u8>>)
    ensures
        match bytes {
            Some(b) => base64_url_decoded(encoded@) == Some(b@),
            None => base64_url_decoded(encoded@) is None,
        },
{
    base64::engine::general_purpose::URL_SAFE_NO_PAD.decode(encoded).ok()
}

/// What a padded URL-safe base64 text decodes to.
pub uninterp spec fn base64_url_padded_decoded(encoded: Seq<char>) -> Option<Seq<u8>>;

/// `base64::engine::general_purpose::URL_SAFE.decode`: the bytes, or nothing
/// where the text is not of that form. It depends on the text alone.
#[verifier::external_body]
pub(crate) fn decode_base64_url_padded(encoded: &str) -> (bytes: Option<Vec<u8>>)
    ensures
        match bytes {
            Some(b) => base64_url_padded_decoded(encoded@) == Some(b@),
            None => base64_url_padded_decoded(encoded@) is None,
        },
{
    base64::engine::general_purpose::URL_SAFE.decode(encoded).ok()
}

/// `getrandom::getrandom`: as many random bytes as asked for, or nothing where
/// the system has none to give. Nothing else is said of them.
#[verifier::external_body]
pub(crate) fn random_bytes(count: usize) -> (bytes: Option<Vec<u8>>)
    ensures
        match bytes {
            Some(b) => b@.len() == count,
            None => true,
        },
{
    let mut bytes = vec![0u8; count];
    getrandom::getrandom(&mut bytes).ok().map(|_| bytes)
}

/// What AES with a 128-bit key makes of one block.
pub uninterp spec fn aes128_of(key: Seq<u8>, block: Seq<u8>) -> Seq<u8>;

/// `aes::Aes128::encrypt_block` under a key of 16 bytes: a block of 16 bytes for
/// a block of 16 bytes. It depends on the two alone.
#[verifier::external_body]
pub(crate) fn aes128(key: &[u8], block: &[u8]) -> (encrypted: Vec<u8>)
    requires
        key@.len() == 16,
        block@.len() == 16,
    ensures
        encrypted@ == aes128_of(key@, block@),
        encrypted@.len() == 16,
{
    let mut state = aes::Block::try_from(block).unwrap();
    aes::Aes128::new_from_slice(key).unwrap().encrypt_block(&mut state);
    state.to_vec()
}

/// The number that bytes write, the most significant first.
pub open spec fn be_nat(bytes: Seq<u8>) -> nat
    decreases bytes.len(),
{
    if bytes.len() == 0 {
        0
    } else {
        be_nat(bytes.drop_last()) * 256 + bytes.last() as nat
    }
}

/// The last `len` bytes of a number, the most significant first.
pub open spec fn be_bytes(n: nat, len: nat) -> Seq<u8>
    decreases len,
{
    if len == 0 {
        Seq::empty()
    } else {
        be_bytes(n / 256, (len - 1) as nat).push((n % 256) as u8)
    }
}

/// `num_bigint::BigUint::modpow` on numbers read by `from_bytes_be` and written
/// by `to_bytes_be`: the power, reduced, without a leading zero byte.
#[verifier::external_body]
pub(crate) fn mod_pow(base: &[u8], exponent: u32, modulus: &[u8]) -> (power: Vec<u8>)
    requires
        exponent > 0,
        be_nat(modulus@) > 1,
    ensures
        be_nat(power@) == pow(be_nat(base@) as int, exponent as nat) % be_nat(modulus@) as int,
        power@.len() > 1 ==> power@[0] != 0,
{
    let modulus = num_bigint::BigUint::from_bytes_be(modulus);
    let exponent = num_bigint::BigUint::from(exponent);
    num_bigint::BigUint::from_bytes_be(base).modpow(&exponent, &modulus).to_bytes_be()
}

/// Bytes write a number below the power of 256 by their count.
pub proof fn lemma_be_nat_bound(bytes: Seq<u8>)
    ensures
        be_nat(bytes) < pow(256, bytes.len()),
        bytes.len() > 0 && bytes[0] != 0 ==> be_nat(bytes) >= pow(256, (bytes.len() - 1) as nat),
    decreases bytes.len(),
{
    vstd::arithmetic::power::lemma_pow0(256);
    if bytes.len() > 0 {
        let front = bytes.drop_last();
        lemma_be_nat_bound(front);
        reveal(pow);
        if bytes.len() > 1 && bytes[0] != 0 {
            assert(front[0] == bytes[0]);
        }
    }
}

/// A count of bytes and the number they write determine them.
pub proof fn lemma_be_bytes(bytes: Seq<u8>)
    ensures
        be_bytes(be_nat(bytes), bytes.len()) == bytes,
    decreases bytes.len(),
{
    if bytes.len() > 0 {
        lemma_be_bytes(bytes.drop_last());
        assert(be_bytes(be_nat(bytes), bytes.len()) =~= bytes);
    } else {
        assert(be_bytes(be_nat(bytes), 0) =~= bytes);
    }
}

/// Zero bytes in front do not change the number.
pub proof fn lemma_be_nat_zeros(zeros: Seq<u8>, bytes: Seq<u8>)
    requires
        forall|i: int| 0 <= i < zeros.len() ==> zeros[i] == 0,
    ensures
        be_nat(zeros + bytes) == be_nat(bytes),
    decreases zeros.len() + bytes.len(),
{
    if bytes.len() > 0 {
        assert((zeros + bytes).drop_last() =~= zeros + bytes.drop_last());
        lemma_be_nat_zeros(zeros, bytes.drop_last());
    } else if zeros.len() > 0 {
        assert((zeros + bytes).drop_last() =~= zeros.drop_last() + bytes);
        lemma_be_nat_zeros(zeros.drop_last(), bytes);
    }
}

/// The value of a hexadecimal digit in lower case.
pub open spec fn hex_value(c: char) -> nat {
    if '0' <= c <= '9' {
        (c as nat - '0' as nat) as nat
    } else if 'a' <= c <= 'f' {
        (c as nat - 'a' as nat + 10) as nat
    } else {
        0
    }
}

/// The bytes that pairs of hexadecimal digits write.
pub open spec fn unhex_of(digits: Seq<char>) -> Seq<u8>
    decreases digits.len(),
{
    if digits.len() < 2 {
        Seq::empty()
    } else {
        let n = digits.len() as int;
        unhex_of(digits.take(n - 2)).push(
            (hex_value(digits[n - 2]) * 16 + hex_value(digits[n - 1])) as u8,
        )
    }
}

/// The value of a hexadecimal digit in lower case.
fn hex_number(c: char) -> (n: u8)
    ensures
        n == hex_value(c),
        n < 16,
{
    if '0' <= c && c <= '9' {
        (c as u8) - 48
    } else if 'a' <= c && c <= 'f' {
        (c as u8) - 87
    } else {
        0
    }
}

/// The bytes that pairs of hexadecimal digits write.
pub fn unhex(digits: &str) -> (bytes: Vec<u8>)
    requires
        digits@.len() % 2 == 0,
    ensures
        bytes@ == unhex_of(digits@),
{
    let chars = text::chars_of(digits);
    let mut bytes: Vec<u8> = Vec::new();
    let mut i: usize = 0;
    while i + 1 < chars.len()
        invariant
            chars@ == digits@,
            i <= chars.len(),
            i % 2 == 0,
            chars.len() % 2 == 0,
            bytes@ == unhex_of(digits@.take(i as int)),
        decreases chars.len() - i,
    {
        bytes.push(hex_number(chars[i]) * 16 + hex_number(chars[i + 1]));
        let ghost done = digits@.take(i as int + 2);
        assert(done.take(done.len() - 2) =~= digits@.take(i as int));
        i += 2;
    }
    assert(digits@.take(i as int) =~= digits@);
    bytes
}

/// The hexadecimal digit for a number below sixteen.
pub open spec fn hex_digit(n: int) -> char {
    if n < 10 {
        ('0' as int + n) as char
    } else {
        ('a' as int + n - 10) as char
    }
}

/// Bytes in lower-case hexadecimal.
pub open spec fn hex_of(bytes: Seq<u8>) -> Seq<char>
    decreases bytes.len(),
{
    if bytes.len() == 0 {
        Seq::empty()
    } else {
        hex_of(bytes.drop_last()).push(hex_digit(bytes.last() as int / 16)).push(
            hex_digit(bytes.last() as int % 16),
        )
    }
}

/// The hexadecimal digit for a number below sixteen.
fn hex_char(n: u8) -> (c: char)
    requires
        n < 16,
    ensures
        c == hex_digit(n as int),
{
    if n < 10 {
        (48u8 + n) as char
    } else {
        (87u8 + n) as char
    }
}

/// Bytes in lower-case hexadecimal.
pub fn hex(bytes: &[u8]) -> (shown: String)
    ensures
        shown@ == hex_of(bytes@),
{
    let mut shown = String::new();
    let mut i: usize = 0;
    while i < bytes.len()
        invariant
            i <= bytes.len(),
            shown@ == hex_of(bytes@.take(i as int)),
        decreases bytes.len() - i,
    {
        let byte = bytes[i];
        shown.push(hex_char(byte / 16));
        shown.push(hex_char(byte % 16));
        i += 1;
        assert(bytes@.take(i as int).drop_last() =~= bytes@.take(i as int - 1));
    }
    assert(bytes@.take(bytes@.len() as int) =~= bytes@);
    shown
}

/// Two hexadecimal digits for each byte.
pub proof fn lemma_hex_len(bytes: Seq<u8>)
    ensures
        hex_of(bytes).len() == 2 * bytes.len(),
    decreases bytes.len(),
{
    if bytes.len() > 0 {
        lemma_hex_len(bytes.drop_last());
    }
}

/// Appends the bytes of a text.
pub fn push_text(bytes: &mut Vec<u8>, more: &str)
    ensures
        final(bytes)@ == old(bytes)@ + encode_utf8(more@),
{
    push_bytes(bytes, more.as_bytes());
}

/// Appends bytes.
pub fn push_bytes(bytes: &mut Vec<u8>, more: &[u8])
    ensures
        final(bytes)@ == old(bytes)@ + more@,
{
    let mut i: usize = 0;
    assert(bytes@ =~= old(bytes)@ + more@.take(0));
    while i < more.len()
        invariant
            i <= more.len(),
            bytes@ == old(bytes)@ + more@.take(i as int),
        decreases more.len() - i,
    {
        bytes.push(more[i]);
        i += 1;
        assert(bytes@ =~= old(bytes)@ + more@.take(i as int));
    }
    assert(more@.take(more@.len() as int) =~= more@);
}

/// The two digits of a byte.
pub proof fn lemma_hex_at(bytes: Seq<u8>, i: int)
    requires
        0 <= i < bytes.len(),
    ensures
        hex_of(bytes).len() == 2 * bytes.len(),
        hex_of(bytes)[2 * i] == hex_digit(bytes[i] as int / 16),
        hex_of(bytes)[2 * i + 1] == hex_digit(bytes[i] as int % 16),
    decreases bytes.len(),
{
    lemma_hex_len(bytes);
    lemma_hex_len(bytes.drop_last());
    if i < bytes.len() - 1 {
        lemma_hex_at(bytes.drop_last(), i);
    }
}

} // verus!
