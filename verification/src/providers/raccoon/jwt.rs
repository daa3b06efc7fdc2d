//! What a token says of itself. Its signature is not checked: whether the token
//! is good, the upstream decides.
use crate::digest;
use crate::json;
use crate::json::{Json, JsonV};
use crate::number;
use crate::text;
use crate::time::Millis;
use vstd::prelude::*;
use vstd::string::*;
use vstd::utf8::*;

verus! {

/// A token without the word `Bearer` before it.
pub open spec fn bare(s: Seq<char>) -> Seq<char> {
    let inner = text::trimmed(s);
    if inner.len() > 6 && text::ascii_lowercase(inner.take(6)) == "bearer"@ && text::is_space(
        inner[6],
    ) {
        text::trimmed(inner.skip(6))
    } else {
        inner
    }
}

/// A token without the word `Bearer` before it.
pub fn strip_bearer(value: &str) -> (token: String)
    ensures
        token@ == bare(value@),
{
    let inner = text::trim(value);
    let count: usize = inner.unicode_len();
    if count <= 6 {
        return text::owned(inner);
    }
    let head = inner.substring_char(0, 6);
    assert(head@ =~= inner@.take(6));
    let lower = text::text_of(&text::lower_chars(head));
    if !text::same(lower.as_str(), "bearer") {
        return text::owned(inner);
    }
    let chars = text::chars_of(inner);
    if !text::space(chars[6]) {
        return text::owned(inner);
    }
    let rest = inner.substring_char(6, count);
    assert(rest@ =~= inner@.skip(6));
    text::owned(text::trim(rest))
}

/// The six bits that a character of base64 stands for.
pub open spec fn sextet_of(c: char) -> Option<nat> {
    if 'A' <= c <= 'Z' {
        Some((c as nat - 'A' as nat) as nat)
    } else if 'a' <= c <= 'z' {
        Some((c as nat - 'a' as nat + 26) as nat)
    } else if '0' <= c <= '9' {
        Some((c as nat - '0' as nat + 52) as nat)
    } else if c == '+' {
        Some(62)
    } else if c == '/' {
        Some(63)
    } else {
        None
    }
}

/// The six bits that a character of base64 stands for.
fn sextet(c: char) -> (value: Option<u32>)
    ensures
        match value {
            Some(v) => sextet_of(c) == Some(v as nat) && v < 64,
            None => sextet_of(c) is None,
        },
{
    if 'A' <= c && c <= 'Z' {
        Some(c as u32 - 65)
    } else if 'a' <= c && c <= 'z' {
        Some(c as u32 - 97 + 26)
    } else if '0' <= c && c <= '9' {
        Some(c as u32 - 48 + 52)
    } else if c == '+' {
        Some(62)
    } else if c == '/' {
        Some(63)
    } else {
        None
    }
}

/// Whether every character stands for six bits.
pub open spec fn all_sextets(s: Seq<char>) -> bool {
    forall|i: int| 0 <= i < s.len() ==> sextet_of(#[trigger] s[i]) is Some
}

/// The number that characters of base64 write, the first one highest.
pub open spec fn sextet_nat(s: Seq<char>) -> nat
    decreases s.len(),
{
    if s.len() == 0 {
        0
    } else {
        sextet_nat(s.drop_last()) * 64 + sextet_of(s.last()).unwrap()
    }
}

/// What so many characters of base64 leave over after whole bytes, as a power of
/// two.
pub open spec fn leftover(count: nat) -> nat {
    if count % 4 == 0 {
        1
    } else if count % 4 == 1 {
        64
    } else if count % 4 == 2 {
        16
    } else {
        4
    }
}

/// Whether a text holds nothing but characters of base64 and padding.
pub open spec fn is_base64(s: Seq<char>) -> bool {
    forall|i: int| 0 <= i < s.len() ==> sextet_of(#[trigger] s[i]) is Some || s[i] == '='
}

/// The bytes that a text of base64 writes, up to the first `=`: as many whole
/// bytes as its bits fill. A character that has no place in base64 makes the
/// whole text invalid, wherever it stands.
pub open spec fn base64_bytes(s: Seq<char>) -> Option<Seq<u8>> {
    let body = text::before_char(s, '=');
    if is_base64(s) {
        Some(
            digest::be_bytes(
                sextet_nat(body) / leftover(body.len()),
                (6 * body.len() / 8) as nat,
            ),
        )
    } else {
        None
    }
}

proof fn lemma_body(s: Seq<char>)
    requires
        is_base64(s),
    ensures
        all_sextets(text::before_char(s, '=')),
{
    text::lemma_place_of(s, '=');
    let body = text::before_char(s, '=');
    assert forall|i: int| 0 <= i < body.len() implies sextet_of(#[trigger] body[i]) is Some by {
        assert(body[i] == s[i]);
    }
}

/// Whether a text holds nothing but characters of base64 and padding.
fn only_base64(input: &str) -> (yes: bool)
    ensures
        yes == is_base64(input@),
{
    let chars = text::chars_of(input);
    let mut i: usize = 0;
    while i < chars.len()
        invariant
            chars@ == input@,
            i <= chars.len(),
            is_base64(input@.take(i as int)),
        decreases chars.len() - i,
    {
        if chars[i] != '=' && sextet(chars[i]).is_none() {
            assert(input@[i as int] == chars@[i as int]);
            return false;
        }
        proof {
            let upto = input@.take(i as int + 1);
            assert forall|k: int| 0 <= k < upto.len() implies sextet_of(#[trigger] upto[k]) is Some
                || upto[k] == '=' by {
                if k < i {
                    assert(upto[k] == input@.take(i as int)[k]);
                }
            }
        }
        i += 1;
    }
    assert(input@.take(input@.len() as int) =~= input@);
    true
}

/// The bytes that a text of base64 writes, up to the first `=`; nothing where it
/// holds any other character.
#[verifier::spinoff_prover]
#[verifier::rlimit(60)]
pub fn base64_decode(input: &str) -> (bytes: Option<Vec<u8>>)
    ensures
        match bytes {
            Some(b) => base64_bytes(input@) == Some(b@),
            None => base64_bytes(input@) is None,
        },
{
    if !only_base64(input) {
        return None;
    }
    let head = text::head_before(input, '=');
    let ghost body = text::before_char(input@, '=');
    proof {
        lemma_body(input@);
    }
    let chars = text::chars_of(head);
    let mut out: Vec<u8> = Vec::new();
    let mut buffer: u32 = 0;
    let mut unit: u32 = 1;
    let mut i: usize = 0;
    assert(body.take(0) =~= Seq::empty());
    while i < chars.len()
        invariant
            chars@ == body,
            body == text::before_char(input@, '='),
            all_sextets(body),
            i <= chars.len(),
            unit == leftover(i as nat),
            buffer < unit,
            out@.len() == 6 * i / 8,
            digest::be_nat(out@) * unit + buffer == sextet_nat(body.take(i as int)),
        decreases chars.len() - i,
    {
        let ghost upto = body.take(i as int + 1);
        assert(upto.drop_last() =~= body.take(i as int));
        assert(sextet_of(body[i as int]) is Some);
        let value: u32 = match sextet(chars[i]) {
            Some(value) => value,
            None => return None,
        };
        let total: u32 = buffer * 64 + value;
        let ghost before = out@;
        let ghost known = digest::be_nat(before) as int;
        let ghost wide = unit as int;
        let ghost held = buffer as int;
        assert((known * wide + held) * 64 + value == known * (64 * wide) + total)
            by (nonlinear_arith)
            requires
                total == held * 64 + value,
        ;
        if unit == 1 {
            unit = 64;
            buffer = total;
        } else {
            unit = unit / 4;
            let high: u32 = total / unit;
            buffer = total % unit;
            assert(high < 256) by {
                assert(unit == 16 || unit == 4 || unit == 1);
                if unit == 16 {
                    assert(total < 4096 && high == total / 16);
                } else if unit == 4 {
                    assert(total < 1024 && high == total / 4);
                }
            }
            let byte: u8 = high as u8;
            out.push(byte);
            proof {
                assert(out@.drop_last() =~= before);
                assert(digest::be_nat(out@) == known * 256 + byte);
                vstd::arithmetic::div_mod::lemma_fundamental_div_mod(total as int, unit as int);
                let narrow = unit as int;
                let top = byte as int;
                let low = buffer as int;
                assert(known * (64 * wide) + total == (known * 256 + top) * narrow + low)
                    by (nonlinear_arith)
                    requires
                        wide == 4 * narrow,
                        total as int == narrow * top + low,
                ;
            }
        }
        i += 1;
    }
    assert(body.take(body.len() as int) =~= body);
    proof {
        digest::lemma_be_bytes(out@);
        let whole = sextet_nat(body);
        let rest = leftover(body.len());
        vstd::arithmetic::div_mod::lemma_fundamental_div_mod_converse(
            whole as int,
            rest as int,
            digest::be_nat(out@) as int,
            buffer as int,
        );
    }
    Some(out)
}

/// A character of the URL-safe alphabet in the usual one.
pub open spec fn usual(c: char) -> char {
    if c == '-' {
        '+'
    } else if c == '_' {
        '/'
    } else {
        c
    }
}

/// The bytes that a text of URL-safe base64 writes.
pub open spec fn base64_url_bytes(s: Seq<char>) -> Option<Seq<u8>> {
    base64_bytes(s.map_values(|c: char| usual(c)))
}

/// The bytes that a text of URL-safe base64 writes, with padding or without.
fn base64_url_to_bytes(input: &str) -> (bytes: Option<Vec<u8>>)
    ensures
        match bytes {
            Some(b) => base64_url_bytes(input@) == Some(b@),
            None => base64_url_bytes(input@) is None,
        },
{
    let chars = text::chars_of(input);
    let mut mapped: Vec<char> = Vec::new();
    let ghost all = input@.map_values(|c: char| usual(c));
    let mut i: usize = 0;
    while i < chars.len()
        invariant
            chars@ == input@,
            all == input@.map_values(|c: char| usual(c)),
            i <= chars.len(),
            mapped@ == all.take(i as int),
        decreases chars.len() - i,
    {
        let c = chars[i];
        mapped.push(
            if c == '-' {
                '+'
            } else if c == '_' {
                '/'
            } else {
                c
            },
        );
        i += 1;
        assert(mapped@ =~= all.take(i as int));
    }
    assert(all.take(all.len() as int) =~= all);
    base64_decode(text::text_of(&mapped).as_str())
}

/// What a token claims.
pub open spec fn claims_in(token: Seq<char>) -> Option<JsonV> {
    let parts = text::parts(bare(token), '.');
    if parts.len() < 2 || parts[1].len() == 0 {
        None
    } else {
        match base64_url_bytes(parts[1]) {
            None => None,
            Some(bytes) => if !valid_utf8(bytes) {
                None
            } else {
                match json::parsed_json(decode_utf8(bytes)) {
                    Some(JsonV::Obj(m)) => Some(JsonV::Obj(m)),
                    _ => None,
                }
            },
        }
    }
}

/// What a token claims; nothing where it is no such token.
pub fn decode_jwt_claims(token: &str) -> (claims: Option<Json>)
    ensures
        json::owned_view(claims) == claims_in(token@),
{
    let raw = strip_bearer(token);
    let parts = text::split(raw.as_str(), '.');
    let ghost all = text::parts(raw@, '.');
    assert(forall|i: int| 0 <= i < parts@.len() ==> all[i] == (#[trigger] parts@[i])@);
    if parts.len() < 2 || parts[1].as_str().is_empty() {
        return None;
    }
    let bytes = match base64_url_to_bytes(parts[1].as_str()) {
        Some(bytes) => bytes,
        None => return None,
    };
    let content = match text::from_utf8(bytes) {
        Some(content) => content,
        None => return None,
    };
    match json::parse_json(content.as_str()) {
        Some(claims) => if claims.is_object() {
            Some(claims)
        } else {
            None
        },
        None => None,
    }
}

/// The time at which a token ends.
pub open spec fn expiry_in(token: Seq<char>) -> Option<Millis> {
    match claims_in(token) {
        None => None,
        Some(claims) => match claims.get("exp"@) {
            None => None,
            Some(v) => match json::read_number(v) {
                Some(bits) => if number::is_positive(bits) {
                    Some(Millis { bits: number::thousandfold(bits) })
                } else {
                    None
                },
                None => None,
            },
        },
    }
}

/// The time at which a token ends, which it states in seconds; nothing where it
/// does not say.
pub fn jwt_expiry_ms(token: &str) -> (millis: Option<Millis>)
    ensures
        millis == expiry_in(token@),
{
    let claims = match decode_jwt_claims(token) {
        Some(claims) => claims,
        None => return None,
    };
    let end = match claims.get("exp") {
        Some(value) => json::number_in(value),
        None => return None,
    };
    match end {
        Some(end) => {
            let bits: u64 = end.bits();
            if 0 < bits && bits < 0x8000_0000_0000_0000 {
                Some(Millis { bits: number::by_thousand(bits) })
            } else {
                None
            }
        },
        None => None,
    }
}

/// The value of a hexadecimal digit.
pub open spec fn hex_digit_of(c: char) -> Option<nat> {
    if '0' <= c <= '9' {
        Some((c as nat - '0' as nat) as nat)
    } else if 'a' <= c <= 'f' {
        Some((c as nat - 'a' as nat + 10) as nat)
    } else if 'A' <= c <= 'F' {
        Some((c as nat - 'A' as nat + 10) as nat)
    } else {
        None
    }
}

/// The value of a hexadecimal digit.
fn hex_digit(c: char) -> (value: Option<u32>)
    ensures
        match value {
            Some(v) => hex_digit_of(c) == Some(v as nat) && v < 16,
            None => hex_digit_of(c) is None,
        },
{
    if '0' <= c && c <= '9' {
        Some(c as u32 - 48)
    } else if 'a' <= c && c <= 'f' {
        Some(c as u32 - 97 + 10)
    } else if 'A' <= c && c <= 'F' {
        Some(c as u32 - 65 + 10)
    } else {
        None
    }
}

/// Whether every character is a hexadecimal digit.
pub open spec fn all_hex(s: Seq<char>) -> bool {
    forall|i: int| 0 <= i < s.len() ==> hex_digit_of(#[trigger] s[i]) is Some
}

/// The number that hexadecimal digits write.
pub open spec fn hex_nat(s: Seq<char>) -> nat
    decreases s.len(),
{
    if s.len() == 0 {
        0
    } else {
        hex_nat(s.drop_last()) * 16 + hex_digit_of(s.last()).unwrap()
    }
}

/// A power of ten.
pub open spec fn ten_to(k: nat) -> nat
    decreases k,
{
    if k == 0 {
        1
    } else {
        10 * ten_to((k - 1) as nat)
    }
}

/// The number that decimal digits write, the lowest first.
pub open spec fn low_first(digits: Seq<u8>) -> nat
    decreases digits.len(),
{
    if digits.len() == 0 {
        0
    } else {
        low_first(digits.drop_last()) + digits.last() as nat * ten_to((digits.len() - 1) as nat)
    }
}

/// Whether every one is a decimal digit.
pub open spec fn are_digits(digits: Seq<u8>) -> bool {
    forall|i: int| 0 <= i < digits.len() ==> #[trigger] digits[i] < 10
}

/// Sixteen times a number of decimal digits, and a digit more.
fn shift_in(digits: &Vec<u8>, more: u32) -> (out: Vec<u8>)
    requires
        more < 16,
        are_digits(digits@),
    ensures
        are_digits(out@),
        low_first(out@) == 16 * low_first(digits@) + more,
{
    let mut out: Vec<u8> = Vec::new();
    let mut carry: u32 = more;
    let mut i: usize = 0;
    let ghost all = digits@;
    assert(all.take(0) =~= Seq::empty());
    assert(carry * ten_to(0) == carry) by (nonlinear_arith)
        requires
            ten_to(0) == 1,
    ;
    while i < digits.len()
        invariant
            all == digits@,
            are_digits(all),
            i <= digits.len(),
            carry < 16,
            out@.len() == i,
            are_digits(out@),
            low_first(out@) + carry * ten_to(i as nat) == 16 * low_first(all.take(i as int))
                + more,
        decreases digits.len() - i,
    {
        let value: u32 = digits[i] as u32 * 16 + carry;
        let ghost before = out@;
        let ghost unit = ten_to(i as nat);
        let ghost known = carry;
        let low: u8 = (value % 10) as u8;
        out.push(low);
        carry = value / 10;
        proof {
            assert(out@.drop_last() =~= before);
            assert(all.take(i as int + 1).drop_last() =~= all.take(i as int));
            let digit = all[i as int] as nat;
            let top = carry as nat;
            let rest = low as nat;
            assert(rest * unit + top * (10 * unit) == (16 * digit + known) * unit)
                by (nonlinear_arith)
                requires
                    16 * digit + known == rest + 10 * top,
            ;
            assert((16 * digit + known) * unit == 16 * (digit * unit) + known * unit)
                by (nonlinear_arith);
            assert(ten_to((i + 1) as nat) == 10 * unit);
        }
        i += 1;
    }
    assert(all.take(all.len() as int) =~= all);
    while carry > 0
        invariant
            carry < 16,
            are_digits(out@),
            low_first(out@) + carry * ten_to(out@.len()) == 16 * low_first(digits@) + more,
        decreases carry,
    {
        let ghost before = out@;
        let ghost unit = ten_to(out@.len());
        let ghost known = carry;
        let low: u8 = (carry % 10) as u8;
        out.push(low);
        carry = carry / 10;
        proof {
            assert(out@.drop_last() =~= before);
            let top = carry as nat;
            let rest = low as nat;
            assert(rest * unit + top * (10 * unit) == known * unit) by (nonlinear_arith)
                requires
                    known == rest + 10 * top,
            ;
            assert(ten_to(out@.len()) == 10 * unit);
        }
    }
    out
}

proof fn lemma_low_split(digits: Seq<u8>)
    requires
        digits.len() > 0,
    ensures
        low_first(digits) == digits[0] as nat + 10 * low_first(digits.skip(1)),
    decreases digits.len(),
{
    if digits.len() == 1 {
        assert(digits.skip(1) =~= Seq::empty());
        assert(digits.drop_last() =~= Seq::empty());
        let only = digits[0] as nat;
        assert(only * ten_to(0) == only) by (nonlinear_arith)
            requires
                ten_to(0) == 1,
        ;
    } else {
        lemma_low_split(digits.drop_last());
        assert(digits.drop_last().skip(1) =~= digits.skip(1).drop_last());
        let unit = ten_to((digits.len() - 2) as nat);
        let top = digits.last() as nat;
        assert(ten_to((digits.len() - 1) as nat) == 10 * unit);
        assert(top * (10 * unit) == 10 * (top * unit)) by (nonlinear_arith);
    }
}

proof fn lemma_low_zero(digits: Seq<u8>)
    requires
        digits.len() > 0,
        digits.last() != 0,
    ensures
        low_first(digits) > 0,
{
    let unit = ten_to((digits.len() - 1) as nat);
    lemma_ten_pos((digits.len() - 1) as nat);
    let top = digits.last() as nat;
    assert(top * unit > 0) by (nonlinear_arith)
        requires
            top > 0,
            unit > 0,
    ;
}

proof fn lemma_ten_pos(k: nat)
    ensures
        ten_to(k) > 0,
    decreases k,
{
    if k > 0 {
        lemma_ten_pos((k - 1) as nat);
    }
}

/// The decimal text of a number of decimal digits, the lowest first.
fn digits_text(digits: &Vec<u8>) -> (shown: String)
    requires
        are_digits(digits@),
    ensures
        shown@ == text::decimal(low_first(digits@)),
{
    let mut count: usize = digits.len();
    let ghost all = digits@;
    assert(all.take(all.len() as int) =~= all);
    while count > 0 && digits[count - 1] == 0
        invariant
            all == digits@,
            count <= digits.len(),
            low_first(all) == low_first(all.take(count as int)),
        decreases count,
    {
        assert(all.take(count as int).drop_last() =~= all.take(count as int - 1));
        let ghost unit = ten_to((count - 1) as nat);
        assert(0 * unit == 0) by (nonlinear_arith);
        count -= 1;
    }
    if count == 0 {
        assert(all.take(0) =~= Seq::empty());
        return text::decimal_text(0);
    }
    let ghost kept = all.take(count as int);
    let mut out: Vec<char> = Vec::new();
    let mut i: usize = count - 1;
    let top: u8 = digits[i];
    out.push(digit_char(top));
    proof {
        assert(kept.skip(i as int) =~= seq![top]);
        lemma_low_split(seq![top]);
        assert(seq![top].skip(1) =~= Seq::empty());
        assert(text::decimal(top as nat) =~= seq![text::digit_char(top as nat)]);
    }
    while i > 0
        invariant
            all == digits@,
            are_digits(all),
            kept == all.take(count as int),
            0 < count <= all.len(),
            kept.last() != 0,
            i < count,
            out@ == text::decimal(low_first(kept.skip(i as int))),
        decreases i,
    {
        i -= 1;
        let digit: u8 = digits[i];
        proof {
            let part = kept.skip(i as int);
            assert(part.skip(1) =~= kept.skip(i as int + 1));
            assert(part[0] == digit);
            lemma_low_split(part);
            lemma_low_zero(kept.skip(i as int + 1));
        }
        out.push(digit_char(digit));
    }
    assert(kept.skip(0) =~= kept);
    text::text_of(&out)
}

/// The character of a decimal digit.
fn digit_char(digit: u8) -> (c: char)
    requires
        digit < 10,
    ensures
        c == text::digit_char(digit as nat),
{
    (digit + 48) as char
}

/// What follows the mark of a hexadecimal number.
pub open spec fn unmarked(raw: Seq<char>) -> Seq<char> {
    if "0x"@.is_prefix_of(raw) || "0X"@.is_prefix_of(raw) {
        raw.skip(2)
    } else {
        raw
    }
}

/// The text that may be a hexadecimal id.
pub open spec fn id_text(value: JsonV) -> Option<Seq<char>> {
    match value {
        JsonV::Str(s) => Some(text::trimmed(s)),
        JsonV::Int(_) => Some(value.shown()),
        JsonV::Float { .. } => Some(value.shown()),
        _ => None,
    }
}

/// The decimal text of a hexadecimal id.
pub open spec fn hex_id(value: JsonV) -> Option<Seq<char>> {
    match id_text(value) {
        None => None,
        Some(raw) => if unmarked(raw).len() == 0 || !all_hex(unmarked(raw)) {
            None
        } else {
            Some(text::decimal(hex_nat(unmarked(raw))))
        },
    }
}

/// The decimal text of a hexadecimal id, however long; nothing for any other
/// value.
fn hex_id_to_decimal(value: &Json) -> (id: Option<String>)
    ensures
        json::owned_text(id) == hex_id(value@),
{
    let raw = match value {
        Json::Text(s) => text::owned(text::trim(s.as_str())),
        Json::Natural(_) => value.shown(),
        Json::Negative(_) => value.shown(),
        Json::Float(_) => value.shown(),
        _ => return None,
    };
    proof {
        reveal_strlit("0x");
        reveal_strlit("0X");
    }
    let rest = match text::strip_prefix(raw.as_str(), "0x") {
        Some(rest) => rest,
        None => match text::strip_prefix(raw.as_str(), "0X") {
            Some(rest) => rest,
            None => raw.as_str(),
        },
    };
    assert(rest@ == unmarked(raw@));
    if rest.is_empty() {
        return None;
    }
    let chars = text::chars_of(rest);
    let mut digits: Vec<u8> = Vec::new();
    let ghost all = rest@;
    assert(all.take(0) =~= Seq::empty());
    let mut i: usize = 0;
    while i < chars.len()
        invariant
            chars@ == all,
            id_text(value@) is Some,
            all == unmarked(id_text(value@).unwrap()),
            i <= chars.len(),
            all_hex(all.take(i as int)),
            are_digits(digits@),
            low_first(digits@) == hex_nat(all.take(i as int)),
        decreases chars.len() - i,
    {
        let ghost upto = all.take(i as int + 1);
        assert(upto.drop_last() =~= all.take(i as int));
        let more: u32 = match hex_digit(chars[i]) {
            Some(more) => more,
            None => {
                assert(hex_digit_of(all[i as int]) is None);
                return None;
            },
        };
        assert(all_hex(upto)) by {
            assert forall|k: int| 0 <= k < upto.len() implies hex_digit_of(#[trigger] upto[k]) is Some by {
                if k < i {
                    assert(upto[k] == all.take(i as int)[k]);
                }
            }
        }
        digits = shift_in(&digits, more);
        i += 1;
    }
    assert(all.take(all.len() as int) =~= all);
    Some(digits_text(&digits))
}

/// The first entry that is a hexadecimal id, in decimal.
pub open spec fn first_hex_id(claims: JsonV, keys: Seq<&str>) -> Option<Seq<char>>
    decreases keys.len(),
{
    if keys.len() == 0 {
        None
    } else {
        let own = match claims.get(keys[0]@) {
            Some(v) => hex_id(v),
            None => None,
        };
        if own is Some {
            own
        } else {
            first_hex_id(claims, keys.skip(1))
        }
    }
}

/// The first entry that shows something, trimmed.
pub open spec fn first_shown(claims: JsonV, keys: Seq<&str>) -> Seq<char>
    decreases keys.len(),
{
    if keys.len() == 0 {
        Seq::empty()
    } else if text::trimmed(claims.shown_at(keys[0]@)).len() > 0 {
        text::trimmed(claims.shown_at(keys[0]@))
    } else {
        first_shown(claims, keys.skip(1))
    }
}

/// The first entry that shows something, trimmed.
pub fn find_shown(claims: &Json, keys: &[&str]) -> (content: String)
    ensures
        content@ == first_shown(claims@, keys@),
{
    let mut i: usize = 0;
    assert(keys@.skip(0) =~= keys@);
    while i < keys.len()
        invariant
            i <= keys.len(),
            first_shown(claims@, keys@) == first_shown(claims@, keys@.skip(i as int)),
        decreases keys.len() - i,
    {
        assert(keys@.skip(i as int)[0] == keys@[i as int]);
        assert(keys@.skip(i as int).skip(1) =~= keys@.skip(i as int + 1));
        let shown = claims.shown_at(keys[i]);
        let inner = text::trim(shown.as_str());
        if !inner.is_empty() {
            return text::owned(inner);
        }
        i += 1;
    }
    String::new()
}

/// The user that claims name.
pub open spec fn user_in(claims: JsonV) -> Seq<char> {
    match first_hex_id(claims, seq!["sid", "iss"]) {
        Some(id) => id,
        None => first_shown(claims, seq!["sub", "id", "user_id"]),
    }
}

/// The user that claims name: a hexadecimal session or issuer in decimal, else
/// what the entries for users show.
pub fn extract_user_id(claims: &Json) -> (user: String)
    ensures
        user@ == user_in(claims@),
{
    proof {
        let keys = seq!["sid", "iss"];
        assert(keys.skip(1) =~= seq!["iss"]);
        assert(keys.skip(1).skip(1) =~= Seq::empty());
        reveal_with_fuel(first_hex_id, 3);
    }
    if let Some(value) = claims.get("sid") {
        if let Some(id) = hex_id_to_decimal(value) {
            return id;
        }
    }
    if let Some(value) = claims.get("iss") {
        if let Some(id) = hex_id_to_decimal(value) {
            return id;
        }
    }
    assert(["sub", "id", "user_id"]@ =~= seq!["sub", "id", "user_id"]);
    find_shown(claims, &["sub", "id", "user_id"])
}

/// The name that claims give.
pub fn display_name(claims: &Json) -> (name: String)
    ensures
        name@ == text::trimmed(claims@.shown_at("name"@)),
{
    let shown = claims.shown_at("name");
    text::owned(text::trim(shown.as_str()))
}

/// A value as a scripting language shows it.
pub fn js_text(value: &Json) -> (content: String)
    ensures
        content@ == value@.shown(),
{
    value.shown()
}

} // verus!
