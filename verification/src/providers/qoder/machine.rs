//! Random secrets and the identity of the machine. Where no random bytes can be
//! had, a login ends: nothing predictable takes their place.
use crate::digest;
use crate::errors::{ErrorV, GatewayError};
use crate::json;
use crate::text;
use vstd::prelude::*;
use vstd::string::*;
use vstd::utf8::*;

verus! {

/// Whether a text is 32 bytes in URL-safe base64.
pub open spec fn is_secret(s: Seq<char>) -> bool {
    &&& exists|bytes: Seq<u8>| bytes.len() == 32 && s == #[trigger] digest::base64_url_of(bytes)
    &&& s.len() == 43
    &&& forall|i: int| 0 <= i < s.len() ==> digest::is_base64_url(#[trigger] s[i])
}

/// A random secret: 32 random bytes in URL-safe base64.
pub fn random_secret() -> (secret: Result<String, GatewayError>)
    ensures
        match secret {
            Ok(s) => is_secret(s@),
            Err(e) => e@ == ErrorV::plain(500, "无法生成安全的 Qoder 登录随机串"@),
        },
{
    secret_from(digest::random_bytes(32))
}

/// The secret that 32 random bytes give. Where none could be had, nothing takes
/// their place.
pub fn secret_from(bytes: Option<Vec<u8>>) -> (secret: Result<String, GatewayError>)
    requires
        bytes matches Some(b) ==> b@.len() == 32,
    ensures
        match bytes {
            Some(b) => secret is Ok && secret->Ok_0@ == digest::base64_url_of(b@) && is_secret(
                secret->Ok_0@,
            ),
            None => secret is Err && secret->Err_0@ == ErrorV::plain(
                500,
                "无法生成安全的 Qoder 登录随机串"@,
            ),
        },
{
    match bytes {
        Some(bytes) => {
            let secret = digest::base64_url(&bytes);
            assert(secret@ == digest::base64_url_of(bytes@));
            Ok(secret)
        },
        None => Err(GatewayError::with_status(500, "无法生成安全的 Qoder 登录随机串")),
    }
}

/// Sixteen bytes with the version and the variant of a random UUID.
pub open spec fn stamped(bytes: Seq<u8>) -> Seq<u8> {
    bytes.update(6, (bytes[6] % 16 + 64) as u8).update(8, (bytes[8] % 64 + 128) as u8)
}

/// The random UUID made of sixteen bytes.
pub open spec fn uuid_of(bytes: Seq<u8>) -> Seq<char> {
    let hex = digest::hex_of(stamped(bytes));
    hex.subrange(0, 8) + "-"@ + hex.subrange(8, 12) + "-"@ + hex.subrange(12, 16) + "-"@
        + hex.subrange(16, 20) + "-"@ + hex.subrange(20, 32)
}

/// The random UUID made of sixteen bytes.
pub fn uuid_from(bytes: Vec<u8>) -> (uuid: String)
    requires
        bytes@.len() == 16,
    ensures
        uuid@ == uuid_of(bytes@),
{
    let ghost given = bytes@;
    let mut bytes = bytes;
    let version: u8 = bytes[6] % 16 + 64;
    let variant: u8 = bytes[8] % 64 + 128;
    bytes.set(6, version);
    bytes.set(8, variant);
    assert(bytes@ =~= stamped(given));
    let hex = digest::hex(&bytes);
    proof {
        digest::lemma_hex_len(bytes@);
    }
    let digits = hex.as_str();
    let mut uuid = text::owned(digits.substring_char(0, 8));
    uuid.append("-");
    uuid.append(digits.substring_char(8, 12));
    uuid.append("-");
    uuid.append(digits.substring_char(12, 16));
    uuid.append("-");
    uuid.append(digits.substring_char(16, 20));
    uuid.append("-");
    uuid.append(digits.substring_char(20, 32));
    uuid
}

/// Whether a text is the random UUID of some sixteen bytes.
pub open spec fn is_uuid(s: Seq<char>) -> bool {
    exists|bytes: Seq<u8>| bytes.len() == 16 && s == #[trigger] uuid_of(bytes)
}

/// A random UUID.
pub fn random_uuid() -> (uuid: Result<String, GatewayError>)
    ensures
        match uuid {
            Ok(s) => is_uuid(s@),
            Err(e) => e@ == ErrorV::plain(500, "无法生成 Qoder 机器标识"@),
        },
{
    match digest::random_bytes(16) {
        Some(bytes) => Ok(uuid_from(bytes)),
        None => Err(GatewayError::with_status(500, "无法生成 Qoder 机器标识")),
    }
}

/// A random UUID has 36 characters, hyphens at four of them, the version 4 and
/// one of the variants 8, 9, a and b.
pub proof fn uuid_has_its_form(s: Seq<char>)
    requires
        is_uuid(s),
    ensures
        s.len() == 36,
        s[8] == '-' && s[13] == '-' && s[18] == '-' && s[23] == '-',
        s[14] == '4',
        s[19] == '8' || s[19] == '9' || s[19] == 'a' || s[19] == 'b',
{
    let bytes = choose|bytes: Seq<u8>| bytes.len() == 16 && s == #[trigger] uuid_of(bytes);
    let own = stamped(bytes);
    reveal_strlit("-");
    digest::lemma_hex_len(own);
    digest::lemma_hex_at(own, 6);
    digest::lemma_hex_at(own, 8);
    let hex = digest::hex_of(own);
    assert(s[14] == hex[12]);
    assert(s[19] == hex[16]);
    assert(own[6] as int / 16 == 4);
    assert(8 <= own[8] as int / 16 <= 11);
}

/// Whether a character is a control character.
pub open spec fn is_control(c: char) -> bool {
    c <= '\u{1f}' || '\u{7f}' <= c <= '\u{9f}'
}

/// Whether a text can be the identity of a machine.
pub open spec fn is_machine_id(s: Seq<char>) -> bool {
    s.len() > 0 && encode_utf8(s).len() <= 256 && forall|i: int|
        0 <= i < s.len() ==> !is_control(#[trigger] s[i])
}

/// The identity that the content of a file gives.
pub open spec fn machine_id_in(content: Option<Seq<char>>) -> Option<Seq<char>> {
    match content {
        Some(s) => if is_machine_id(text::trimmed(s)) {
            Some(text::trimmed(s))
        } else {
            None
        },
        None => None,
    }
}

/// The identity that the content of a file gives, where it is one.
pub fn read_id(content: Option<&str>) -> (id: Option<String>)
    ensures
        json::owned_text(id) == machine_id_in(json::opt_text(content)),
{
    let value = match content {
        Some(s) => text::trim(s),
        None => return None,
    };
    if value.is_empty() {
        return None;
    }
    if value.as_bytes().len() > 256 {
        return None;
    }
    let chars = text::chars_of(value);
    let mut i: usize = 0;
    while i < chars.len()
        invariant
            chars@ == value@,
            json::opt_text(content) is Some,
            value@ == text::trimmed(json::opt_text(content).unwrap()),
            i <= chars.len(),
            forall|k: int| 0 <= k < i ==> !is_control(#[trigger] value@[k]),
        decreases chars.len() - i,
    {
        let c = chars[i];
        if c <= '\u{1f}' || ('\u{7f}' <= c && c <= '\u{9f}') {
            assert(is_control(value@[i as int]));
            return None;
        }
        i += 1;
    }
    Some(text::owned(value))
}

/// The identity of the machine, and whether it has still to be saved.
#[derive(Debug)]
pub struct MachineId {
    pub value: String,
    pub save: bool,
}

/// The first identity that the contents of files give.
pub open spec fn first_id(contents: Seq<Option<Seq<char>>>) -> Option<Seq<char>>
    decreases contents.len(),
{
    if contents.len() == 0 {
        None
    } else if machine_id_in(contents[0]) is Some {
        machine_id_in(contents[0])
    } else {
        first_id(contents.skip(1))
    }
}

/// What contents of files mean.
pub open spec fn contents_view(contents: Seq<Option<String>>) -> Seq<Option<Seq<char>>> {
    contents.map_values(|content: Option<String>| json::owned_text(content))
}

/// The identity of the machine: the saved one, else the first that another
/// client left behind, else a new random one.
pub fn machine_id(saved: Option<&str>, others: &[Option<String>]) -> (id: Result<
    MachineId,
    GatewayError,
>)
    ensures
        match machine_id_in(json::opt_text(saved)) {
            Some(s) => id is Ok && id->Ok_0.value@ == s && !id->Ok_0.save,
            None => match first_id(contents_view(others@)) {
                Some(s) => id is Ok && id->Ok_0.value@ == s && id->Ok_0.save,
                None => match id {
                    Ok(new) => is_uuid(new.value@) && new.save,
                    Err(e) => e@ == ErrorV::plain(500, "无法生成 Qoder 机器标识"@),
                },
            },
        },
{
    if let Some(value) = read_id(saved) {
        return Ok(MachineId { value, save: false });
    }
    let ghost all = contents_view(others@);
    let mut i: usize = 0;
    assert(all.skip(0) =~= all);
    while i < others.len()
        invariant
            all == contents_view(others@),
            i <= others.len(),
            machine_id_in(json::opt_text(saved)) is None,
            first_id(all) == first_id(all.skip(i as int)),
        decreases others.len() - i,
    {
        assert(all.skip(i as int)[0] == json::owned_text(others@[i as int]));
        assert(all.skip(i as int).skip(1) =~= all.skip(i as int + 1));
        let content = match &others[i] {
            Some(s) => Some(s.as_str()),
            None => None,
        };
        if let Some(value) = read_id(content) {
            return Ok(MachineId { value, save: true });
        }
        i += 1;
    }
    match random_uuid() {
        Ok(value) => Ok(MachineId { value, save: true }),
        Err(error) => Err(error),
    }
}

/// The identity of a machine does not change once it is saved: what is written to
/// the file, taken over or new, is read from it again.
pub proof fn saved_ids_are_read_again(id: Seq<char>, content: Option<Seq<char>>)
    requires
        machine_id_in(content) == Some(id) || is_uuid(id),
    ensures
        machine_id_in(Some(id)) == Some(id),
{
    if machine_id_in(content) == Some(id) {
        text::lemma_trimmed(content.unwrap());
    } else {
        let bytes = choose|bytes: Seq<u8>| bytes.len() == 16 && id == #[trigger] uuid_of(bytes);
        let own = stamped(bytes);
        let hex = digest::hex_of(own);
        reveal_strlit("-");
        digest::lemma_hex_len(own);
        assert forall|i: int| 0 <= i < 32 implies !is_control(#[trigger] hex[i])
            && !text::is_space(hex[i]) && (hex[i] as nat) < 128 by {
            digest::lemma_hex_at(own, i / 2);
            assert(i == 2 * (i / 2) || i == 2 * (i / 2) + 1);
        }
        assert(id.len() == 36);
        assert forall|i: int| 0 <= i < id.len() implies !is_control(#[trigger] id[i])
            && !text::is_space(id[i]) && (id[i] as nat) < 128 by {
            if i < 8 {
                assert(id[i] == hex[i]);
            } else if 9 <= i < 13 {
                assert(id[i] == hex[i - 1]);
            } else if 14 <= i < 18 {
                assert(id[i] == hex[i - 2]);
            } else if 19 <= i < 23 {
                assert(id[i] == hex[i - 3]);
            } else if 24 <= i {
                assert(id[i] == hex[i - 4]);
            } else {
                assert(id[i] == '-');
            }
        }
        assert(is_ascii_chars(id));
        is_ascii_chars_encode_utf8(id);
        assert(text::trimmed_start(id) == id);
        assert(!text::is_space(id.last()));
        assert(text::trimmed_end(id) == id);
    }
}

} // verus!
