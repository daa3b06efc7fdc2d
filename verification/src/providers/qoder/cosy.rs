//! Signing a request to Qoder's gateway and encoding its body.
//!
//! The gateway takes no plain token. The identity goes encrypted under a key
//! used once, that key goes encrypted under the gateway's public key, and a
//! digest over both, the time, the body and the path makes the signature. The
//! body is part of it, so it is encoded first.
use super::credentials::CredentialsV;
use super::machine;
use crate::digest;
use crate::errors::{ErrorV, GatewayError};
use crate::json;
use crate::json::{Json, JsonV};
use crate::text;
use crate::urls;
use vstd::arithmetic::power::pow;
use vstd::prelude::*;
use vstd::string::*;
use vstd::utf8::*;

verus! {

/// The version of the signature that the gateway takes.
pub const GATEWAY_COSY_VERSION: &'static str = "1.1.38";

/// The kind of client.
pub const CLIENT_TYPE: &'static str = "5";

/// No consent to training.
pub const DATA_POLICY: &'static str = "disagree";

/// The version of the login.
pub const LOGIN_VERSION: &'static str = "v2";

/// The kind of machine.
pub const MACHINE_TYPE: &'static str = "5";

/// The address that the client gives as its own.
pub const CLIENT_IP: &'static str = "127.0.0.1";

/// The modulus of the gateway's public key.
pub const RSA_MODULUS_HEX: &'static str = "c0f22307e5cd362e296bb04470f6de8fbf935ce24e8fcf511a0e2701329769c4a76e499bb938036a52af1eaf818cf79a2600620e3ce87e371d2ca6d85803606a1b3fa5e874643c9ed2db7e85673ef7227fca56e2e7c08f0927609bb896a9f24be1782099a66016a5bfdc3f1ff756bfc9e88d7b5dc5be30bf45a0223a00ebcecf";

/// The exponent of the gateway's public key.
pub const RSA_EXPONENT: u32 = 65537;

/// The bytes of the gateway's public key.
pub const RSA_BYTES: usize = 128;

/// The alphabet that takes the place of the standard one.
pub const CUSTOM_ALPHABET: &'static str =
    "_doRTgHZBKcGVjlvpC,@aFSx#DPuNJme&i*MzLOEn)sUrthbf%Y^w.(kIQyXqWA!";

/// The place of a character in the standard base64 alphabet.
pub open spec fn base64_index(c: char) -> int {
    if 'A' <= c <= 'Z' {
        c as int - 'A' as int
    } else if 'a' <= c <= 'z' {
        c as int - 'a' as int + 26
    } else if '0' <= c <= '9' {
        c as int - '0' as int + 52
    } else if c == '+' {
        62
    } else {
        63
    }
}

/// The character that takes another's place.
pub open spec fn swapped(c: char) -> u8 {
    if digest::is_base64(c) {
        CUSTOM_ALPHABET@[base64_index(c)] as u8
    } else if c == '=' {
        '$' as u8
    } else {
        c as u8
    }
}

/// Characters, each with the one that takes its place.
pub open spec fn swapped_all(s: Seq<char>) -> Seq<u8> {
    s.map_values(|c: char| swapped(c))
}

/// A base64 text as it is sent: its last third, its middle and its first third,
/// in the other alphabet.
pub open spec fn shuffled(s: Seq<char>) -> Seq<u8> {
    let n = s.len() as int;
    let third = n / 3;
    swapped_all(s.subrange(n - third, n)) + swapped_all(s.subrange(third, n - third))
        + swapped_all(s.subrange(0, third))
}

/// Appends characters, each with the one that takes its place.
fn push_swapped(out: &mut Vec<u8>, chars: &Vec<char>, from: usize, to: usize)
    requires
        from <= to <= chars@.len(),
        forall|i: int|
            0 <= i < chars@.len() ==> digest::is_base64(#[trigger] chars@[i]) || chars@[i] == '=',
    ensures
        final(out)@ == old(out)@ + swapped_all(chars@.subrange(from as int, to as int)),
{
    let custom = text::chars_of(CUSTOM_ALPHABET);
    proof {
        reveal_strlit("_doRTgHZBKcGVjlvpC,@aFSx#DPuNJme&i*MzLOEn)sUrthbf%Y^w.(kIQyXqWA!");
    }
    let ghost before = out@;
    let mut i: usize = from;
    assert(before + swapped_all(chars@.subrange(from as int, from as int)) =~= before);
    while i < to
        invariant
            custom@ == CUSTOM_ALPHABET@,
            custom@.len() == 64,
            forall|k: int| 0 <= k < 64 ==> (#[trigger] custom@[k]) as u32 <= 127,
            from <= i <= to <= chars@.len(),
            forall|k: int|
                0 <= k < chars@.len() ==> digest::is_base64(#[trigger] chars@[k]) || chars@[k]
                    == '=',
            out@ == before + swapped_all(chars@.subrange(from as int, i as int)),
        decreases to - i,
    {
        let c = chars[i];
        let place: usize = if 'A' <= c && c <= 'Z' {
            (c as u8 - 65) as usize
        } else if 'a' <= c && c <= 'z' {
            (c as u8 - 71) as usize
        } else if '0' <= c && c <= '9' {
            (c as u8 + 4) as usize
        } else if c == '+' {
            62
        } else {
            63
        };
        let byte: u8 = if c == '=' {
            36
        } else {
            custom[place] as u8
        };
        assert(byte == swapped(c));
        out.push(byte);
        i += 1;
        assert(out@ =~= before + swapped_all(chars@.subrange(from as int, i as int)));
    }
}

/// The body of a request as it is sent: in base64, its thirds exchanged, in the
/// other alphabet.
pub fn encode_body(payload: &[u8]) -> (body: Vec<u8>)
    ensures
        body@ == shuffled(digest::base64_of(payload@)),
{
    let encoded = digest::base64(payload);
    let chars = text::chars_of(encoded.as_str());
    let n: usize = chars.len();
    let third: usize = n / 3;
    let mut body: Vec<u8> = Vec::new();
    push_swapped(&mut body, &chars, n - third, n);
    push_swapped(&mut body, &chars, third, n - third);
    push_swapped(&mut body, &chars, 0, third);
    assert(body@ =~= shuffled(encoded@));
    body
}

/// The character whose place a byte takes.
pub open spec fn unswapped(byte: u8) -> char {
    if byte == '$' as u8 {
        '='
    } else {
        choose|c: char| digest::is_base64(c) && swapped(c) == byte
    }
}

/// A base64 text read back from the form in which it is sent.
pub open spec fn unshuffled(sent: Seq<u8>) -> Seq<char> {
    let n = sent.len() as int;
    let third = n / 3;
    (sent.subrange(n - third, n) + sent.subrange(third, n - third) + sent.subrange(0, third)).map_values(
        |byte: u8| unswapped(byte),
    )
}

/// The place of a character in the other alphabet, 64 for none of it.
pub open spec fn custom_index(c: char) -> int {
    if c == '_' {
        0
    } else if c == 'd' {
        1
    } else if c == 'o' {
        2
    } else if c == 'R' {
        3
    } else if c == 'T' {
        4
    } else if c == 'g' {
        5
    } else if c == 'H' {
        6
    } else if c == 'Z' {
        7
    } else if c == 'B' {
        8
    } else if c == 'K' {
        9
    } else if c == 'c' {
        10
    } else if c == 'G' {
        11
    } else if c == 'V' {
        12
    } else if c == 'j' {
        13
    } else if c == 'l' {
        14
    } else if c == 'v' {
        15
    } else if c == 'p' {
        16
    } else if c == 'C' {
        17
    } else if c == ',' {
        18
    } else if c == '@' {
        19
    } else if c == 'a' {
        20
    } else if c == 'F' {
        21
    } else if c == 'S' {
        22
    } else if c == 'x' {
        23
    } else if c == '#' {
        24
    } else if c == 'D' {
        25
    } else if c == 'P' {
        26
    } else if c == 'u' {
        27
    } else if c == 'N' {
        28
    } else if c == 'J' {
        29
    } else if c == 'm' {
        30
    } else if c == 'e' {
        31
    } else if c == '&' {
        32
    } else if c == 'i' {
        33
    } else if c == '*' {
        34
    } else if c == 'M' {
        35
    } else if c == 'z' {
        36
    } else if c == 'L' {
        37
    } else if c == 'O' {
        38
    } else if c == 'E' {
        39
    } else if c == 'n' {
        40
    } else if c == ')' {
        41
    } else if c == 's' {
        42
    } else if c == 'U' {
        43
    } else if c == 'r' {
        44
    } else if c == 't' {
        45
    } else if c == 'h' {
        46
    } else if c == 'b' {
        47
    } else if c == 'f' {
        48
    } else if c == '%' {
        49
    } else if c == 'Y' {
        50
    } else if c == '^' {
        51
    } else if c == 'w' {
        52
    } else if c == '.' {
        53
    } else if c == '(' {
        54
    } else if c == 'k' {
        55
    } else if c == 'I' {
        56
    } else if c == 'Q' {
        57
    } else if c == 'y' {
        58
    } else if c == 'X' {
        59
    } else if c == 'q' {
        60
    } else if c == 'W' {
        61
    } else if c == 'A' {
        62
    } else if c == '!' {
        63
    } else {
        64
    }
}

proof fn lemma_custom_index(i: int)
    requires
        0 <= i < 64,
    ensures
        CUSTOM_ALPHABET@.len() == 64,
        custom_index(CUSTOM_ALPHABET@[i]) == i,
        CUSTOM_ALPHABET@[i] as u32 <= 127,
        CUSTOM_ALPHABET@[i] != '$',
{
    reveal_strlit("_doRTgHZBKcGVjlvpC,@aFSx#DPuNJme&i*MzLOEn)sUrthbf%Y^w.(kIQyXqWA!");
    assert(i == 0 || i == 1 || i == 2 || i == 3 || i == 4 || i == 5 || i == 6 || i == 7
        || i == 8 || i == 9 || i == 10 || i == 11 || i == 12 || i == 13 || i == 14 || i == 15
        || i == 16 || i == 17 || i == 18 || i == 19 || i == 20 || i == 21 || i == 22 || i == 23
        || i == 24 || i == 25 || i == 26 || i == 27 || i == 28 || i == 29 || i == 30 || i == 31
        || i == 32 || i == 33 || i == 34 || i == 35 || i == 36 || i == 37 || i == 38 || i == 39
        || i == 40 || i == 41 || i == 42 || i == 43 || i == 44 || i == 45 || i == 46 || i == 47
        || i == 48 || i == 49 || i == 50 || i == 51 || i == 52 || i == 53 || i == 54 || i == 55
        || i == 56 || i == 57 || i == 58 || i == 59 || i == 60 || i == 61 || i == 62 || i == 63);
}

proof fn lemma_unswapped(c: char)
    requires
        digest::is_base64(c) || c == '=',
    ensures
        unswapped(swapped(c)) == c,
{
    if digest::is_base64(c) {
        lemma_custom_index(base64_index(c));
        let byte = swapped(c);
        assert(byte != '$' as u8);
        assert(digest::is_base64(c) && swapped(c) == byte);
        let back = unswapped(byte);
        assert(digest::is_base64(back) && swapped(back) == byte);
        lemma_custom_index(base64_index(back));
        assert(base64_index(back) == base64_index(c));
    }
}

/// The gateway can read a body back: exchanging the thirds again and going back
/// to the standard alphabet gives the base64 text that was sent.
pub proof fn encoding_can_be_undone(s: Seq<char>)
    requires
        forall|i: int| 0 <= i < s.len() ==> digest::is_base64(#[trigger] s[i]) || s[i] == '=',
    ensures
        shuffled(s).len() == s.len(),
        unshuffled(shuffled(s)) == s,
{
    let sent = shuffled(s);
    let n = s.len() as int;
    let third = n / 3;
    let back = unshuffled(sent);
    assert(sent.len() == n);
    assert forall|i: int| 0 <= i < n implies back[i] == s[i] by {
        lemma_unswapped(s[i]);
        let joined = sent.subrange(n - third, n) + sent.subrange(third, n - third) + sent.subrange(
            0,
            third,
        );
        assert(joined[i] == swapped(s[i]));
    }
    assert(back =~= s);
}

/// Who signs a request.
pub struct CosyIdentity<'a> {
    pub user_id: &'a str,
    pub auth_token: &'a str,
    pub name: &'a str,
    pub email: &'a str,
    pub machine_id: &'a str,
}

/// What an identity means.
pub ghost struct IdentityV {
    pub user_id: Seq<char>,
    pub auth_token: Seq<char>,
    pub name: Seq<char>,
    pub email: Seq<char>,
    pub machine_id: Seq<char>,
}

impl<'a> View for CosyIdentity<'a> {
    type V = IdentityV;

    open spec fn view(&self) -> IdentityV {
        IdentityV {
            user_id: self.user_id@,
            auth_token: self.auth_token@,
            name: self.name@,
            email: self.email@,
            machine_id: self.machine_id@,
        }
    }
}

/// Data filled up to whole blocks: every byte added tells how many there are.
pub open spec fn padded(data: Seq<u8>) -> Seq<u8> {
    let pad = 16 - data.len() % 16;
    data + Seq::new(pad as nat, |i: int| pad as u8)
}

/// Two blocks, bit by bit.
pub open spec fn mixed(a: Seq<u8>, b: Seq<u8>) -> Seq<u8> {
    Seq::new(16, |i: int| a[i] ^ b[i])
}

/// Whole blocks encrypted in a chain that begins with `previous`.
pub open spec fn chained(key: Seq<u8>, previous: Seq<u8>, data: Seq<u8>) -> Seq<u8>
    decreases data.len(),
{
    if data.len() < 16 {
        Seq::empty()
    } else {
        let block = digest::aes128_of(key, mixed(data.take(16), previous));
        block + chained(key, block, data.skip(16))
    }
}

/// Data encrypted under a key, which begins the chain too.
pub open spec fn encrypted(key: Seq<u8>, data: Seq<u8>) -> Seq<u8> {
    chained(key, key, padded(data))
}

/// Data encrypted under a key of 16 bytes, in base64.
fn aes128_cbc_base64(key16: &str, plaintext: &[u8]) -> (cipher: Result<String, GatewayError>)
    ensures
        if encode_utf8(key16@).len() == 16 {
            cipher is Ok && cipher->Ok_0@ == digest::base64_of(
                encrypted(encode_utf8(key16@), plaintext@),
            )
        } else {
            cipher is Err && cipher->Err_0@ == ErrorV::plain(500, "Qoder 签名密钥长度无效"@)
        },
{
    let key = key16.as_bytes();
    if key.len() != 16 {
        return Err(GatewayError::with_status(500, "Qoder 签名密钥长度无效"));
    }
    let mut data: Vec<u8> = Vec::new();
    digest::push_bytes(&mut data, plaintext);
    assert(data@ =~= plaintext@);
    let pad: usize = 16 - data.len() % 16;
    let mut added: usize = 0;
    while added < pad
        invariant
            added <= pad,
            pad == 16 - plaintext@.len() % 16,
            data@ == plaintext@ + Seq::new(added as nat, |i: int| pad as u8),
        decreases pad - added,
    {
        data.push(pad as u8);
        added += 1;
        assert(data@ =~= plaintext@ + Seq::new(added as nat, |i: int| pad as u8));
    }
    assert(data@ =~= padded(plaintext@));
    let mut previous: Vec<u8> = Vec::new();
    digest::push_bytes(&mut previous, key);
    assert(previous@ =~= key@);
    let mut out: Vec<u8> = Vec::new();
    let mut at: usize = 0;
    assert(data@.skip(0) =~= data@);
    assert(out@ + chained(key@, previous@, data@) =~= chained(key@, key@, data@));
    while data.len() - at >= 16
        invariant
            key@.len() == 16,
            previous@.len() == 16,
            at <= data.len(),
            out@ + chained(key@, previous@, data@.skip(at as int)) == chained(key@, key@, data@),
        decreases data.len() - at,
    {
        let mut block: Vec<u8> = Vec::new();
        let ghost left = data@.skip(at as int);
        let mut i: usize = 0;
        while i < 16
            invariant
                at + 16 <= data.len(),
                previous@.len() == 16,
                left == data@.skip(at as int),
                i <= 16,
                block.len() == i,
                forall|k: int| 0 <= k < i ==> block@[k] == left[k] ^ previous@[k],
            decreases 16 - i,
        {
            block.push(data[at + i] ^ previous[i]);
            i += 1;
        }
        assert(block@ =~= mixed(left.take(16), previous@));
        let sealed = digest::aes128(key, &block);
        let ghost before = out@;
        digest::push_bytes(&mut out, &sealed);
        assert(left.skip(16) =~= data@.skip(at as int + 16));
        assert(out@ + chained(key@, sealed@, left.skip(16)) =~= before + (sealed@ + chained(
            key@,
            sealed@,
            left.skip(16),
        )));
        previous = sealed;
        at += 16;
    }
    assert(chained(key@, previous@, data@.skip(at as int)) =~= Seq::empty());
    assert(out@ + Seq::<u8>::empty() =~= out@);
    Ok(digest::base64(&out))
}

/// Bytes without a zero among them: one takes its place.
pub open spec fn nonzero(bytes: Seq<u8>) -> Seq<u8> {
    bytes.map_values(|byte: u8| if byte == 0 { 1u8 } else { byte })
}

/// A message filled up to the length of the key.
pub open spec fn rsa_block(filler: Seq<u8>, message: Seq<u8>) -> Seq<u8> {
    Seq::<u8>::empty().push(0).push(2) + nonzero(filler) + seq![0u8] + message
}

/// A message encrypted under the gateway's public key, as long as the key.
pub open spec fn rsa_sealed(filler: Seq<u8>, message: Seq<u8>) -> Seq<u8> {
    let modulus = digest::be_nat(digest::unhex_of(RSA_MODULUS_HEX@));
    digest::be_bytes(
        (pow(digest::be_nat(rsa_block(filler, message)) as int, RSA_EXPONENT as nat)
            % modulus as int) as nat,
        RSA_BYTES as nat,
    )
}

proof fn lemma_unhex(digits: Seq<char>)
    requires
        digits.len() % 2 == 0,
    ensures
        digest::unhex_of(digits).len() == digits.len() / 2,
        digits.len() > 0 ==> digest::unhex_of(digits)[0] == (digest::hex_value(digits[0]) * 16
            + digest::hex_value(digits[1])) as u8,
    decreases digits.len(),
{
    if digits.len() >= 2 {
        lemma_unhex(digits.take(digits.len() - 2));
    }
}

/// The modulus has as many bytes as the key, and its first is not zero.
proof fn lemma_modulus()
    ensures
        RSA_MODULUS_HEX@.len() % 2 == 0,
        digest::unhex_of(RSA_MODULUS_HEX@).len() == RSA_BYTES,
        1 < digest::be_nat(digest::unhex_of(RSA_MODULUS_HEX@)),
        digest::be_nat(digest::unhex_of(RSA_MODULUS_HEX@)) < pow(256, RSA_BYTES as nat),
{
    reveal_strlit(
        "c0f22307e5cd362e296bb04470f6de8fbf935ce24e8fcf511a0e2701329769c4a76e499bb938036a52af1eaf818cf79a2600620e3ce87e371d2ca6d85803606a1b3fa5e874643c9ed2db7e85673ef7227fca56e2e7c08f0927609bb896a9f24be1782099a66016a5bfdc3f1ff756bfc9e88d7b5dc5be30bf45a0223a00ebcecf",
    );
    let bytes = digest::unhex_of(RSA_MODULUS_HEX@);
    lemma_unhex(RSA_MODULUS_HEX@);
    digest::lemma_be_nat_bound(bytes);
    assert(bytes[0] == 192);
    vstd::arithmetic::power::lemma_pow0(256);
    vstd::arithmetic::power::lemma_pow_strictly_increases(256, 0, 127);
}

/// A message encrypted under the gateway's public key with a given filler, in
/// base64.
pub fn rsa_encrypt(filler: &[u8], plaintext: &str) -> (cipher: Result<String, GatewayError>)
    ensures
        if encode_utf8(plaintext@).len() + 11 > RSA_BYTES {
            cipher is Err && cipher->Err_0@ == ErrorV::plain(500, "Qoder 签名内容过长"@)
        } else {
            cipher is Ok && cipher->Ok_0@ == digest::base64_of(
                rsa_sealed(filler@, encode_utf8(plaintext@)),
            )
        },
{
    let message = plaintext.as_bytes();
    if message.len() > RSA_BYTES - 11 {
        return Err(GatewayError::with_status(500, "Qoder 签名内容过长"));
    }
    let mut block: Vec<u8> = Vec::new();
    block.push(0);
    block.push(2);
    let ghost head = block@;
    let mut i: usize = 0;
    assert(head + nonzero(filler@.take(0)) =~= head);
    while i < filler.len()
        invariant
            i <= filler.len(),
            block@ == head + nonzero(filler@.take(i as int)),
        decreases filler.len() - i,
    {
        let byte: u8 = if filler[i] == 0 {
            1
        } else {
            filler[i]
        };
        block.push(byte);
        i += 1;
        assert(block@ =~= head + nonzero(filler@.take(i as int)));
    }
    assert(filler@.take(filler@.len() as int) =~= filler@);
    block.push(0);
    digest::push_bytes(&mut block, message);
    assert(block@ =~= rsa_block(filler@, message@));
    proof {
        lemma_modulus();
    }
    let modulus = digest::unhex(RSA_MODULUS_HEX);
    let raw = digest::mod_pow(&block, RSA_EXPONENT, &modulus);
    let ghost value = digest::be_nat(raw@);
    proof {
        digest::lemma_be_nat_bound(raw@);
        if raw@.len() > RSA_BYTES {
            vstd::arithmetic::power::lemma_pow_increases(
                256,
                RSA_BYTES as nat,
                (raw@.len() - 1) as nat,
            );
            assert(false);
        }
    }
    let mut out: Vec<u8> = Vec::new();
    let zeros: usize = RSA_BYTES - raw.len();
    let mut filled: usize = 0;
    while filled < zeros
        invariant
            filled <= zeros,
            out.len() == filled,
            forall|k: int| 0 <= k < filled ==> out@[k] == 0,
        decreases zeros - filled,
    {
        out.push(0);
        filled += 1;
    }
    proof {
        digest::lemma_be_nat_zeros(out@, raw@);
    }
    digest::push_bytes(&mut out, &raw);
    proof {
        digest::lemma_be_bytes(out@);
    }
    Ok(digest::base64(&out))
}

/// A message encrypted under the gateway's public key with a random filler, in
/// base64.
fn rsa_encrypt_base64(plaintext: &str) -> (cipher: Result<String, GatewayError>)
    requires
        encode_utf8(plaintext@).len() == 16,
    ensures
        match cipher {
            Ok(s) => is_sealed(s@, encode_utf8(plaintext@)),
            Err(e) => e@ == ErrorV::plain(500, "无法生成 Qoder 签名随机填充"@),
        },
{
    let count: usize = RSA_BYTES - 3 - plaintext.as_bytes().len();
    match digest::random_bytes(count) {
        Some(filler) => rsa_encrypt(&filler, plaintext),
        None => Err(GatewayError::with_status(500, "无法生成 Qoder 签名随机填充")),
    }
}

/// Whether a text is a message encrypted under the gateway's public key with
/// some filler.
pub open spec fn is_sealed(s: Seq<char>, message: Seq<u8>) -> bool {
    exists|filler: Seq<u8>|
        filler.len() == RSA_BYTES - 3 - message.len() && s == digest::base64_of(
            #[trigger] rsa_sealed(filler, message),
        )
}

/// The path that is signed: without the query and without a leading `/algo`.
pub open spec fn signed_path(address: Seq<char>) -> Option<Seq<char>> {
    match urls::parsed_url(address) {
        Some(parts) => Some(path_to_sign(parts.path)),
        None => None,
    }
}

/// A path without a leading `/algo`.
pub open spec fn path_to_sign(path: Seq<char>) -> Seq<char> {
    match text::after_prefix(path, "/algo"@) {
        Some(rest) => rest,
        None => path,
    }
}

/// A path without a leading `/algo`.
pub fn strip_algo(path: &str) -> (rest: String)
    ensures
        rest@ == path_to_sign(path@),
{
    match text::strip_prefix(path, "/algo") {
        Some(rest) => text::owned(rest),
        None => text::owned(path),
    }
}

/// The path of an address that is signed.
pub fn signature_path(request_url: &str) -> (path: Result<String, GatewayError>)
    ensures
        match signed_path(request_url@) {
            Some(p) => path is Ok && path->Ok_0@ == p,
            None => path is Err && path->Err_0@ == ErrorV::plain(500, "Qoder 请求地址无效"@),
        },
{
    match urls::parse_url(request_url) {
        Some(parts) => Ok(strip_algo(parts.path.as_str())),
        None => Err(GatewayError::with_status(500, "Qoder 请求地址无效")),
    }
}

/// The name of a machine's architecture and system.
pub open spec fn machine_name(arm: bool, windows: bool, macos: bool) -> Seq<char> {
    (if arm {
        "aarch64"@
    } else {
        "x86_64"@
    }) + "_"@ + (if windows {
        "windows"@
    } else if macos {
        "darwin"@
    } else {
        "linux"@
    })
}

/// The name of a machine's architecture and system.
pub fn machine_os(arm: bool, windows: bool, macos: bool) -> (name: String)
    ensures
        name@ == machine_name(arm, windows, macos),
{
    let mut name = if arm {
        text::owned("aarch64")
    } else {
        text::owned("x86_64")
    };
    name.append("_");
    if windows {
        name.append("windows");
    } else if macos {
        name.append("darwin");
    } else {
        name.append("linux");
    }
    name
}

/// What of a signature is chosen or read anew for each request.
pub struct Fresh<'a> {
    /// The key used once, 16 ASCII characters.
    pub aes_key: &'a str,
    /// That key under the gateway's public key.
    pub cosy_key: &'a str,
    pub request_id: &'a str,
    pub now_ms: u64,
    pub machine_os: &'a str,
}

/// What the fresh part of a signature means.
pub ghost struct FreshV {
    pub aes_key: Seq<char>,
    pub cosy_key: Seq<char>,
    pub request_id: Seq<char>,
    pub now_ms: nat,
    pub machine_os: Seq<char>,
}

impl<'a> View for Fresh<'a> {
    type V = FreshV;

    open spec fn view(&self) -> FreshV {
        FreshV {
            aes_key: self.aes_key@,
            cosy_key: self.cosy_key@,
            request_id: self.request_id@,
            now_ms: self.now_ms as nat,
            machine_os: self.machine_os@,
        }
    }
}

/// The JSON text of the identity. The order of the keys is fixed: every byte is
/// encrypted and signed.
pub open spec fn identity_text(identity: IdentityV) -> Seq<char> {
    "{\"uid\":"@ + json::json_text(JsonV::Str(identity.user_id)) + ",\"security_oauth_token\":"@
        + json::json_text(JsonV::Str(identity.auth_token)) + ",\"name\":"@ + json::json_text(
        JsonV::Str(identity.name),
    ) + ",\"aid\":\"\",\"email\":"@ + json::json_text(JsonV::Str(identity.email)) + "}"@
}

/// The payload of a signature, in base64.
pub open spec fn payload_text(identity: IdentityV, fresh: FreshV) -> Seq<char> {
    let info = digest::base64_of(
        encrypted(encode_utf8(fresh.aes_key), encode_utf8(identity_text(identity))),
    );
    digest::base64_of(
        encode_utf8(
            "{\"version\":\"v1\",\"requestId\":\""@ + fresh.request_id + "\",\"info\":\""@ + info
                + "\",\"cosyVersion\":\""@ + GATEWAY_COSY_VERSION@
                + "\",\"ideVersion\":\"\"}"@,
        ),
    )
}

/// The signature over the payload, the key, the time, the body and the path.
pub open spec fn signature_text(
    payload: Seq<char>,
    cosy_key: Seq<char>,
    timestamp: Seq<char>,
    body: Seq<u8>,
    path: Seq<char>,
) -> Seq<char> {
    digest::hex_of(
        digest::md5_of(
            (((((encode_utf8(payload).push(10) + encode_utf8(cosy_key)).push(10) + encode_utf8(
                timestamp,
            )).push(10)) + body).push(10)) + encode_utf8(path),
        ),
    )
}

/// The headers of a signed request.
#[verifier::opaque]
pub open spec fn signed_headers(
    body: Seq<u8>,
    path: Seq<char>,
    identity: IdentityV,
    fresh: FreshV,
) -> Seq<(Seq<char>, Seq<char>)> {
    let payload = payload_text(identity, fresh);
    let timestamp = text::decimal(fresh.now_ms / 1000);
    let signature = signature_text(payload, fresh.cosy_key, timestamp, body, path);
    Seq::empty().push(("Authorization"@, "Bearer COSY."@ + payload + "."@ + signature)).push(
        ("Cosy-Key"@, fresh.cosy_key),
    ).push(("Cosy-User"@, identity.user_id)).push(("Cosy-Date"@, timestamp)).push(
        ("Cosy-Version"@, GATEWAY_COSY_VERSION@),
    ).push(("Cosy-Machineid"@, identity.machine_id)).push(
        ("Cosy-Machinetoken"@, identity.machine_id),
    ).push(("Cosy-Machinetype"@, MACHINE_TYPE@)).push(("Cosy-Machineos"@, fresh.machine_os)).push(
        ("Cosy-Clienttype"@, CLIENT_TYPE@),
    ).push(("Cosy-Clientip"@, CLIENT_IP@)).push(
        ("Cosy-Bodyhash"@, digest::hex_of(digest::md5_of(body))),
    ).push(("Cosy-Bodylength"@, text::decimal(body.len()))).push(("Cosy-Sigpath"@, path)).push(
        ("Cosy-Data-Policy"@, DATA_POLICY@),
    ).push(("Cosy-Organization-Id"@, Seq::empty())).push(
        ("Cosy-Organization-Tags"@, Seq::empty()),
    ).push(("Login-Version"@, LOGIN_VERSION@)).push(("X-Request-Id"@, fresh.request_id))
}

/// The JSON text of a text.
fn quoted(content: &str) -> (written: String)
    ensures
        written@ == json::json_text(JsonV::Str(content@)),
{
    json::write_json(&Json::text(content))
}

/// The JSON text of the identity.
fn write_identity(identity: &CosyIdentity<'_>) -> (written: String)
    ensures
        written@ == identity_text(identity@),
{
    let mut written = text::owned("{\"uid\":");
    written.append(quoted(identity.user_id).as_str());
    written.append(",\"security_oauth_token\":");
    written.append(quoted(identity.auth_token).as_str());
    written.append(",\"name\":");
    written.append(quoted(identity.name).as_str());
    written.append(",\"aid\":\"\",\"email\":");
    written.append(quoted(identity.email).as_str());
    written.append("}");
    written
}

/// The payload of a signature, in base64.
fn write_payload(identity: &CosyIdentity<'_>, fresh: &Fresh<'_>) -> (payload: String)
    requires
        encode_utf8(fresh@.aes_key).len() == 16,
    ensures
        payload@ == payload_text(identity@, fresh@),
{
    let user_info = write_identity(identity);
    let info = match aes128_cbc_base64(fresh.aes_key, user_info.as_str().as_bytes()) {
        Ok(info) => info,
        Err(_) => String::new(),
    };
    let mut source = text::owned("{\"version\":\"v1\",\"requestId\":\"");
    source.append(fresh.request_id);
    source.append("\",\"info\":\"");
    source.append(info.as_str());
    source.append("\",\"cosyVersion\":\"");
    source.append(GATEWAY_COSY_VERSION);
    source.append("\",\"ideVersion\":\"\"}");
    digest::base64(source.as_str().as_bytes())
}

/// The signature over the payload, the key, the time, the body and the path.
fn sign(payload: &str, cosy_key: &str, timestamp: &str, body: &[u8], path: &str) -> (signature:
    String)
    ensures
        signature@ == signature_text(payload@, cosy_key@, timestamp@, body@, path@),
{
    let mut signed: Vec<u8> = Vec::new();
    digest::push_text(&mut signed, payload);
    assert(signed@ =~= encode_utf8(payload@));
    signed.push(10);
    digest::push_text(&mut signed, cosy_key);
    signed.push(10);
    digest::push_text(&mut signed, timestamp);
    signed.push(10);
    digest::push_bytes(&mut signed, body);
    signed.push(10);
    digest::push_text(&mut signed, path);
    digest::hex(&digest::md5(&signed))
}

/// The headers of a request signed with a given fresh part.
pub fn sign_request(
    body: &[u8],
    path: &str,
    identity: &CosyIdentity<'_>,
    fresh: &Fresh<'_>,
) -> (headers: Vec<(String, String)>)
    requires
        encode_utf8(fresh@.aes_key).len() == 16,
    ensures
        urls::pairs_view(headers@) == signed_headers(body@, path@, identity@, fresh@),
{
    proof {
        reveal(signed_headers);
    }
    let payload = write_payload(identity, fresh);
    let timestamp = text::decimal_text(fresh.now_ms / 1000);
    let signature = sign(payload.as_str(), fresh.cosy_key, timestamp.as_str(), body, path);
    let body_hash = digest::hex(&digest::md5(body));
    let body_length = text::decimal_text(body.len() as u64);
    let mut authorization = text::owned("Bearer COSY.");
    authorization.append(payload.as_str());
    authorization.append(".");
    authorization.append(signature.as_str());
    let mut headers = urls::no_pairs();
    urls::push_pair(&mut headers, "Authorization", authorization.as_str());
    urls::push_pair(&mut headers, "Cosy-Key", fresh.cosy_key);
    urls::push_pair(&mut headers, "Cosy-User", identity.user_id);
    urls::push_pair(&mut headers, "Cosy-Date", timestamp.as_str());
    urls::push_pair(&mut headers, "Cosy-Version", GATEWAY_COSY_VERSION);
    urls::push_pair(&mut headers, "Cosy-Machineid", identity.machine_id);
    urls::push_pair(&mut headers, "Cosy-Machinetoken", identity.machine_id);
    urls::push_pair(&mut headers, "Cosy-Machinetype", MACHINE_TYPE);
    urls::push_pair(&mut headers, "Cosy-Machineos", fresh.machine_os);
    urls::push_pair(&mut headers, "Cosy-Clienttype", CLIENT_TYPE);
    urls::push_pair(&mut headers, "Cosy-Clientip", CLIENT_IP);
    urls::push_pair(&mut headers, "Cosy-Bodyhash", body_hash.as_str());
    urls::push_pair(&mut headers, "Cosy-Bodylength", body_length.as_str());
    urls::push_pair(&mut headers, "Cosy-Sigpath", path);
    urls::push_pair(&mut headers, "Cosy-Data-Policy", DATA_POLICY);
    let nothing = String::new();
    urls::push_pair(&mut headers, "Cosy-Organization-Id", nothing.as_str());
    urls::push_pair(&mut headers, "Cosy-Organization-Tags", nothing.as_str());
    urls::push_pair(&mut headers, "Login-Version", LOGIN_VERSION);
    urls::push_pair(&mut headers, "X-Request-Id", fresh.request_id);
    headers
}

/// Whether headers sign a request with some key used once, some request id and
/// a given time.
pub open spec fn are_signed(
    headers: Seq<(Seq<char>, Seq<char>)>,
    body: Seq<u8>,
    path: Seq<char>,
    identity: IdentityV,
    now_ms: int,
    machine_os: Seq<char>,
) -> bool {
    exists|fresh: FreshV|
        {
            &&& fresh.now_ms == now_ms
            &&& fresh.machine_os == machine_os
            &&& is_key(fresh.aes_key)
            &&& is_sealed(fresh.cosy_key, encode_utf8(fresh.aes_key))
            &&& machine::is_uuid(fresh.request_id)
            &&& headers == #[trigger] signed_headers(body, path, identity, fresh)
        }
}

/// Whether a text is a key used once: the first sixteen characters of a secret.
pub open spec fn is_key(key: Seq<char>) -> bool {
    &&& key.len() == 16
    &&& exists|secret: Seq<char>|
        machine::is_secret(secret) && key == #[trigger] text::first_chars(secret, 16)
}

/// The errors of a signature for which no random bytes could be had.
pub open spec fn lacks_randomness(error: ErrorV) -> bool {
    ||| error == ErrorV::plain(500, "无法生成安全的 Qoder 登录随机串"@)
    ||| error == ErrorV::plain(500, "无法生成 Qoder 签名随机填充"@)
    ||| error == ErrorV::plain(500, "无法生成 Qoder 机器标识"@)
}

/// Who signs with credentials.
pub open spec fn identity_of(credentials: CredentialsV) -> IdentityV {
    IdentityV {
        user_id: credentials.user_id,
        auth_token: credentials.access_token,
        name: credentials.name,
        email: credentials.email,
        machine_id: credentials.machine_id,
    }
}

/// Whether a request can fail to be signed with this error.
pub open spec fn signing_fails(
    error: ErrorV,
    user_id: Seq<char>,
    auth_token: Seq<char>,
    address: Seq<char>,
) -> bool {
    if user_id.len() == 0 {
        error == ErrorV::plain(400, "Qoder 账号缺少用户标识，无法签名"@)
    } else if auth_token.len() == 0 {
        error == ErrorV::plain(401, "Qoder 账号缺少访问令牌，请重新登录"@)
    } else {
        lacks_randomness(error) || (signed_path(address) is None && error == ErrorV::plain(
            500,
            "Qoder 请求地址无效"@,
        ))
    }
}

/// The headers of a signed request. The body has to be encoded already: the
/// signature covers it. The key used once, its filler and the request id are
/// random.
pub fn build_auth_headers(
    body: Option<&[u8]>,
    request_url: &str,
    identity: &CosyIdentity<'_>,
    now_ms: u64,
    machine_os: &str,
) -> (headers: Result<Vec<(String, String)>, GatewayError>)
    ensures
        match headers {
            Ok(h) => {
                &&& identity@.user_id.len() > 0
                &&& identity@.auth_token.len() > 0
                &&& signed_path(request_url@) is Some
                &&& are_signed(
                    urls::pairs_view(h@),
                    match body {
                        Some(b) => b@,
                        None => Seq::empty(),
                    },
                    signed_path(request_url@).unwrap(),
                    identity@,
                    now_ms as int,
                    machine_os@,
                )
            },
            Err(e) => signing_fails(e@, identity@.user_id, identity@.auth_token, request_url@),
        },
{
    if identity.user_id.is_empty() {
        return Err(GatewayError::with_status(400, "Qoder 账号缺少用户标识，无法签名"));
    }
    if identity.auth_token.is_empty() {
        return Err(GatewayError::with_status(401, "Qoder 账号缺少访问令牌，请重新登录"));
    }
    let secret = match machine::random_secret() {
        Ok(secret) => secret,
        Err(error) => return Err(error),
    };
    let aes_key = text::take_chars(secret.as_str(), 16);
    proof {
        assert forall|i: int| 0 <= i < aes_key@.len() implies (#[trigger] aes_key@[i]) as u32
            <= 127 by {
            assert(digest::is_base64_url(secret@[i]));
        }
        is_ascii_chars_encode_utf8(aes_key@);
        assert(is_key(aes_key@));
    }
    let cosy_key = match rsa_encrypt_base64(aes_key) {
        Ok(key) => key,
        Err(error) => return Err(error),
    };
    let request_id = match machine::random_uuid() {
        Ok(id) => id,
        Err(error) => return Err(error),
    };
    let path = match signature_path(request_url) {
        Ok(path) => path,
        Err(error) => return Err(error),
    };
    let fresh = Fresh {
        aes_key,
        cosy_key: cosy_key.as_str(),
        request_id: request_id.as_str(),
        now_ms,
        machine_os,
    };
    let nothing: Vec<u8> = Vec::new();
    let bytes = match body {
        Some(bytes) => bytes,
        None => nothing.as_slice(),
    };
    assert(bytes@ =~= match body {
        Some(b) => b@,
        None => Seq::empty(),
    });
    let headers = sign_request(bytes, path.as_str(), identity, &fresh);
    assert(urls::pairs_view(headers@) == signed_headers(bytes@, path@, identity@, fresh@));
    Ok(headers)
}

/// A random UUID for a session or a record.
pub fn random_uuid() -> (uuid: Result<String, GatewayError>)
    ensures
        match uuid {
            Ok(s) => machine::is_uuid(s@),
            Err(e) => e@ == ErrorV::plain(500, "无法生成 Qoder 机器标识"@),
        },
{
    machine::random_uuid()
}

} // verus!
