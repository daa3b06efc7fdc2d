//! Logging in to Trae in a browser, and renewing a login.
use crate::digest;
use crate::errors;
use crate::errors::{ErrorV, GatewayError};
use crate::http::{ApiRequest, ApiResponse, RequestV, ResponseV};
use crate::json;
use crate::json::{Json, JsonV};
use crate::text;
use crate::time;
use crate::urls;
use vstd::prelude::*;
use vstd::string::*;
use vstd::utf8::*;

verus! {

/// How long to wait for an answer.
pub const REQUEST_TIMEOUT_MS: u64 = 30000;

/// The site that a browser opens.
pub const CONSOLE_HOST: &'static str = "https://www.trae.cn";

/// How the client presents itself to the services for logins.
#[derive(Debug)]
pub struct Client {
    pub client_id: String,
    pub ide_version: String,
    /// The base of the services.
    pub host: String,
    /// The headers of every call.
    pub headers: Vec<(String, String)>,
}

/// What a client means.
#[verifier::ext_equal]
pub ghost struct ClientV {
    pub client_id: Seq<char>,
    pub ide_version: Seq<char>,
    pub host: Seq<char>,
    pub headers: Seq<(Seq<char>, Seq<char>)>,
}

impl View for Client {
    type V = ClientV;

    open spec fn view(&self) -> ClientV {
        ClientV {
            client_id: self.client_id@,
            ide_version: self.ide_version@,
            host: self.host@,
            headers: urls::pairs_view(self.headers@),
        }
    }
}

/// The credentials of an account.
#[derive(Debug)]
pub struct Credentials {
    pub access_token: String,
    pub refresh_token: String,
    pub expires_at: Option<i64>,
    pub user_id: String,
    pub nickname: String,
    pub enterprise_id: String,
    pub machine_id: String,
    pub device_id: String,
}

/// What credentials mean.
#[verifier::ext_equal]
pub ghost struct CredentialsV {
    pub access_token: Seq<char>,
    pub refresh_token: Seq<char>,
    pub expires_at: Option<int>,
    pub user_id: Seq<char>,
    pub nickname: Seq<char>,
    pub enterprise_id: Seq<char>,
    pub machine_id: Seq<char>,
    pub device_id: Seq<char>,
}

impl View for Credentials {
    type V = CredentialsV;

    open spec fn view(&self) -> CredentialsV {
        CredentialsV {
            access_token: self.access_token@,
            refresh_token: self.refresh_token@,
            expires_at: time::opt_time(self.expires_at),
            user_id: self.user_id@,
            nickname: self.nickname@,
            enterprise_id: self.enterprise_id@,
            machine_id: self.machine_id@,
            device_id: self.device_id@,
        }
    }
}

/// A login that has begun.
#[derive(Debug)]
pub struct Login {
    pub state: String,
    pub auth_url: String,
    pub machine_id: String,
    pub device_id: String,
}

/// The pairs of the address that a browser opens.
pub open spec fn login_pairs(
    client: ClientV,
    callback: Seq<char>,
    trace: Seq<char>,
    machine: Seq<char>,
    device: Seq<char>,
) -> Seq<(Seq<char>, Seq<char>)> {
    Seq::empty().push(("login_version"@, "1"@)).push(("auth_from"@, "solo"@)).push(
        ("login_channel"@, "native_ide"@),
    ).push(("plugin_version"@, "2.3.62834"@)).push(("auth_type"@, "local"@)).push(
        ("client_id"@, client.client_id),
    ).push(("redirect"@, "0"@)).push(("login_trace_id"@, trace)).push(
        ("auth_callback_url"@, callback),
    ).push(("machine_id"@, machine)).push(("device_id"@, device)).push(
        ("x_device_id"@, device),
    ).push(("x_machine_id"@, machine)).push(("x_device_brand"@, "PC"@)).push(
        ("x_device_type"@, "PC"@),
    ).push(("x_os_version"@, "1.0"@)).push(("x_app_version"@, client.ide_version)).push(
        ("x_app_type"@, "stable"@),
    )
}

/// The pairs of the address that a browser opens.
fn make_pairs(client: &Client, callback: &str, trace: &str, machine: &str, device: &str) -> (pairs:
    Vec<(String, String)>)
    ensures
        urls::pairs_view(pairs@) == login_pairs(client@, callback@, trace@, machine@, device@),
{
    let mut pairs = urls::no_pairs();
    urls::push_pair(&mut pairs, "login_version", "1");
    urls::push_pair(&mut pairs, "auth_from", "solo");
    urls::push_pair(&mut pairs, "login_channel", "native_ide");
    urls::push_pair(&mut pairs, "plugin_version", "2.3.62834");
    urls::push_pair(&mut pairs, "auth_type", "local");
    urls::push_pair(&mut pairs, "client_id", client.client_id.as_str());
    urls::push_pair(&mut pairs, "redirect", "0");
    urls::push_pair(&mut pairs, "login_trace_id", trace);
    urls::push_pair(&mut pairs, "auth_callback_url", callback);
    urls::push_pair(&mut pairs, "machine_id", machine);
    urls::push_pair(&mut pairs, "device_id", device);
    urls::push_pair(&mut pairs, "x_device_id", device);
    urls::push_pair(&mut pairs, "x_machine_id", machine);
    urls::push_pair(&mut pairs, "x_device_brand", "PC");
    urls::push_pair(&mut pairs, "x_device_type", "PC");
    urls::push_pair(&mut pairs, "x_os_version", "1.0");
    urls::push_pair(&mut pairs, "x_app_version", client.ide_version.as_str());
    urls::push_pair(&mut pairs, "x_app_type", "stable");
    pairs
}

/// Whether a text can name a machine: sixteen bytes in hexadecimal.
pub open spec fn is_machine(s: Seq<char>) -> bool {
    s.len() == 32 && exists|bytes: Seq<u8>| bytes.len() == 16 && s == #[trigger] digest::hex_of(
        bytes,
    )
}

/// Whether a text can name a device: sixteen decimal digits.
pub open spec fn is_device(s: Seq<char>) -> bool {
    s.len() == 16 && text::all_digits(s)
}

/// A new name for a machine, or nothing where no random bytes can be had.
fn random_machine() -> (machine: Option<String>)
    ensures
        machine matches Some(m) ==> is_machine(m@),
{
    machine_from(digest::random_bytes(16))
}

/// The name for a machine that sixteen random bytes give, and nothing where none
/// could be had.
pub fn machine_from(bytes: Option<Vec<u8>>) -> (machine: Option<String>)
    requires
        bytes matches Some(b) ==> b@.len() == 16,
    ensures
        json::owned_text(machine) == match bytes {
            Some(b) => Some(digest::hex_of(b@)),
            None => None,
        },
        machine matches Some(m) ==> is_machine(m@),
{
    match bytes {
        Some(bytes) => {
            proof {
                digest::lemma_hex_len(bytes@);
            }
            let machine = digest::hex(&bytes);
            assert(machine@ == digest::hex_of(bytes@));
            Some(machine)
        },
        None => None,
    }
}

/// A new name for a device, or nothing where no random bytes can be had.
fn random_device() -> (device: Option<String>)
    ensures
        device matches Some(d) ==> is_device(d@),
{
    device_from(digest::random_bytes(16))
}

/// The decimal digits that bytes stand for, the last digit of each.
pub open spec fn digits_of(bytes: Seq<u8>) -> Seq<char> {
    bytes.map_values(|b: u8| (b % 10 + 48) as char)
}

/// The name for a device that sixteen random bytes give, and nothing where none
/// could be had.
pub fn device_from(bytes: Option<Vec<u8>>) -> (device: Option<String>)
    requires
        bytes matches Some(b) ==> b@.len() == 16,
    ensures
        json::owned_text(device) == match bytes {
            Some(b) => Some(digits_of(b@)),
            None => None,
        },
        device matches Some(d) ==> is_device(d@),
{
    let bytes = match bytes {
        Some(bytes) => bytes,
        None => return None,
    };
    let mut digits: Vec<char> = Vec::new();
    let mut i: usize = 0;
    while i < 16
        invariant
            bytes@.len() == 16,
            i <= 16,
            digits@ == digits_of(bytes@.take(i as int)),
            forall|k: int| 0 <= k < i ==> text::is_digit(#[trigger] digits@[k]),
        decreases 16 - i,
    {
        let digit: u8 = bytes[i] % 10 + 48;
        digits.push(digit as char);
        i += 1;
        assert(digits@ =~= digits_of(bytes@.take(i as int)));
    }
    assert(bytes@.take(16) =~= bytes@);
    Some(text::text_of(&digits))
}

/// Whether a text ends where a number of bytes begin that reach to its end.
pub open spec fn cut_before(s: Seq<char>, bytes: int) -> bool {
    exists|i: int| 0 <= i <= s.len() && #[trigger] text::byte_len(s.skip(i)) == bytes
}

/// Whether a trace is the one of a machine and a device: the last sixteen bytes of
/// both, or both after zeros.
pub open spec fn is_trace(both: Seq<char>, trace: Seq<char>) -> bool {
    if text::byte_len(both) >= 16 {
        exists|i: int|
            0 <= i <= both.len() && #[trigger] text::byte_len(both.skip(i)) == 16 && trace
                == both.skip(i)
    } else {
        trace == zeros(16 - both.len()) + both
    }
}

/// So many zeros.
pub open spec fn zeros(count: int) -> Seq<char> {
    Seq::new(count as nat, |i: int| '0')
}

proof fn lemma_split_len(s: Seq<char>, i: int)
    requires
        0 <= i <= s.len(),
    ensures
        text::byte_len(s) == text::byte_len(s.take(i)) + text::byte_len(s.skip(i)),
    decreases s.len() - i,
{
    if i == s.len() {
        assert(s.take(i) =~= s);
        assert(s.skip(i) =~= Seq::empty());
    } else {
        lemma_split_len(s.drop_last(), i);
        assert(s.drop_last().take(i) =~= s.take(i));
        assert(s.drop_last().skip(i) =~= s.skip(i).drop_last());
    }
}

proof fn lemma_step_len(s: Seq<char>, i: int)
    requires
        0 <= i < s.len(),
    ensures
        text::byte_len(s.skip(i)) == text::width(s[i]) + text::byte_len(s.skip(i + 1)),
{
    lemma_split_len(s.skip(i), 1);
    assert(s.skip(i).take(1) =~= seq![s[i]]);
    assert(seq![s[i]].drop_last() =~= Seq::empty());
    assert(s.skip(i).skip(1) =~= s.skip(i + 1));
    assert(text::byte_len(Seq::<char>::empty()) == 0);
    assert(text::byte_len(seq![s[i]]) == text::width(s[i]));
}

proof fn lemma_shorter(s: Seq<char>, i: int, j: int)
    requires
        0 <= i <= j <= s.len(),
    ensures
        text::byte_len(s.skip(j)) + (j - i) <= text::byte_len(s.skip(i)),
    decreases j - i,
{
    if i < j {
        lemma_step_len(s, i);
        lemma_shorter(s, i + 1, j);
    }
}

/// The trace of a login: the last sixteen bytes of the names of its machine and
/// its device, with zeros before them where they are shorter.
pub fn machine_trace_id(machine_id: &str, device_id: &str) -> (trace: String)
    requires
        text::byte_len(machine_id@ + device_id@) >= 16 ==> cut_before(
            machine_id@ + device_id@,
            16,
        ),
    ensures
        is_trace(machine_id@ + device_id@, trace@),
{
    let mut both = text::owned(machine_id);
    both.append(device_id);
    let ghost all = machine_id@ + device_id@;
    let chars = text::chars_of(both.as_str());
    let mut from: usize = chars.len();
    let mut bytes: usize = 0;
    assert(all.skip(all.len() as int) =~= Seq::empty());
    while from > 0 && bytes < 16
        invariant
            chars@ == all,
            from <= chars.len(),
            bytes < 20,
            bytes == text::byte_len(all.skip(from as int)),
            from < chars.len() ==> text::byte_len(all.skip(from as int + 1)) < 16,
        decreases from,
    {
        proof {
            lemma_step_len(all, from as int - 1);
        }
        from -= 1;
        bytes += text::width_of(chars[from]);
    }
    assert(all.skip(0) =~= all);
    if bytes >= 16 {
        proof {
            lemma_shorter(all, 0, from as int);
            let i = choose|i: int|
                0 <= i <= all.len() && #[trigger] text::byte_len(all.skip(i)) == 16;
            if i < from {
                lemma_shorter(all, i, from as int);
            } else if i > from {
                lemma_shorter(all, from as int + 1, i);
            }
        }
        assert(text::byte_len(all.skip(from as int)) == 16);
        let count: usize = chars.len();
        let tail = both.as_str().substring_char(from, count);
        assert(tail@ =~= all.skip(from as int));
        return text::owned(tail);
    }
    proof {
        lemma_shorter(all, 0, all.len() as int);
    }
    let mut out: Vec<char> = Vec::new();
    while out.len() < 16 - chars.len()
        invariant
            chars@.len() <= 16,
            out@.len() <= 16 - chars@.len(),
            forall|k: int| 0 <= k < out@.len() ==> out@[k] == '0',
        decreases 16 - chars@.len() - out@.len(),
    {
        out.push('0');
    }
    assert(out@ =~= zeros(16 - all.len()));
    let mut trace = text::text_of(&out);
    trace.append(both.as_str());
    trace
}

proof fn lemma_ascii_len(s: Seq<char>)
    requires
        forall|i: int| 0 <= i < s.len() ==> (#[trigger] s[i]) <= '\u{7f}',
    ensures
        text::byte_len(s) == s.len(),
    decreases s.len(),
{
    if s.len() > 0 {
        lemma_ascii_len(s.drop_last());
    }
}

proof fn lemma_hex_ascii(bytes: Seq<u8>)
    ensures
        forall|i: int|
            0 <= i < digest::hex_of(bytes).len() ==> (#[trigger] digest::hex_of(bytes)[i])
                <= '\u{7f}',
    decreases bytes.len(),
{
    if bytes.len() > 0 {
        lemma_hex_ascii(bytes.drop_last());
        let b = bytes.last() as int;
        assert(0 <= b / 16 < 16 && 0 <= b % 16 < 16);
        assert(digest::hex_digit(b / 16) <= '\u{7f}');
        assert(digest::hex_digit(b % 16) <= '\u{7f}');
        let before = digest::hex_of(bytes.drop_last());
        let whole = digest::hex_of(bytes);
        assert forall|i: int| 0 <= i < whole.len() implies (#[trigger] whole[i]) <= '\u{7f}' by {
            if i < before.len() {
                assert(whole[i] == before[i]);
            }
        }
    }
}

/// The trace of a machine and a device.
pub open spec fn trace_of(both: Seq<char>) -> Seq<char> {
    choose|trace: Seq<char>| is_trace(both, trace)
}

/// There is one trace of a machine and a device.
proof fn lemma_one_trace(both: Seq<char>, trace: Seq<char>)
    requires
        is_trace(both, trace),
    ensures
        trace_of(both) == trace,
{
    let other = trace_of(both);
    assert(is_trace(both, other));
    if text::byte_len(both) >= 16 {
        let i = choose|i: int|
            0 <= i <= both.len() && #[trigger] text::byte_len(both.skip(i)) == 16 && trace
                == both.skip(i);
        let j = choose|j: int|
            0 <= j <= both.len() && #[trigger] text::byte_len(both.skip(j)) == 16 && other
                == both.skip(j);
        if i < j {
            lemma_shorter(both, i, j);
        } else if j < i {
            lemma_shorter(both, j, i);
        }
    }
}

/// The page that a browser opens.
pub open spec fn login_page() -> Seq<char> {
    CONSOLE_HOST@ + "/authorization"@
}

/// The address that a browser opens for a machine and a device.
pub open spec fn login_address(
    client: ClientV,
    callback: Seq<char>,
    machine: Seq<char>,
    device: Seq<char>,
) -> Seq<char> {
    login_page() + "?"@ + urls::query_text(
        login_pairs(client, callback, trace_of(machine + device), machine, device),
    )
}

/// The page takes any pairs.
proof fn lemma_login_page()
    ensures
        urls::is_plain_address(login_page()),
{
    reveal_strlit("https://www.trae.cn");
    reveal_strlit("https://");
    reveal_strlit("www.trae.cn");
    reveal_strlit("/authorization");
    assert(login_page() =~= "https://"@ + "www.trae.cn"@ + "/authorization"@);
    urls::lemma_plain_address(login_page(), "www.trae.cn"@, "/authorization"@);
}

/// The trace of a random machine and a random device is the name of the device.
proof fn lemma_trace(machine: Seq<char>, device: Seq<char>)
    requires
        is_machine(machine),
        is_device(device),
    ensures
        text::byte_len(machine + device) >= 16,
        cut_before(machine + device, 16),
        trace_of(machine + device) == device,
{
    let both = machine + device;
    let bytes = choose|bytes: Seq<u8>|
        bytes.len() == 16 && machine == #[trigger] digest::hex_of(bytes);
    lemma_hex_ascii(bytes);
    assert forall|i: int| 0 <= i < both.len() implies (#[trigger] both[i]) <= '\u{7f}' by {
        if i < 32 {
            assert(both[i] == machine[i]);
        } else {
            assert(both[i] == device[i - 32]);
        }
    }
    lemma_ascii_len(both);
    lemma_ascii_len(both.skip(32));
    assert(text::byte_len(both.skip(32)) == 16);
    assert(both.skip(32) =~= device);
    lemma_one_trace(both, device);
}

/// Begins a login that comes back to an address.
pub fn build_login(callback_url: &str, client: &Client) -> (login: Result<Login, GatewayError>)
    ensures
        match login {
            Ok(l) => is_machine(l.machine_id@) && is_device(l.device_id@) && l.state@
                == l.device_id@ && l.auth_url@ == login_address(
                client@,
                callback_url@,
                l.machine_id@,
                l.device_id@,
            ),
            Err(e) => e@ == ErrorV::plain(500, "无法生成 Trae 设备标识"@),
        },
{
    let machine = random_machine();
    let device = random_device();
    proof {
        if machine is Some && device is Some {
            lemma_trace(machine->0@, device->0@);
        }
    }
    login_from(callback_url, client, machine, device)
}

/// The login of a machine and a device that comes back to an address. Without the
/// name of either there is none.
pub fn login_from(
    callback_url: &str,
    client: &Client,
    machine: Option<String>,
    device: Option<String>,
) -> (login: Result<Login, GatewayError>)
    requires
        machine is Some && device is Some ==> text::byte_len(machine->0@ + device->0@) >= 16
            ==> cut_before(machine->0@ + device->0@, 16),
    ensures
        match (json::owned_text(machine), json::owned_text(device)) {
            (Some(m), Some(d)) => login is Ok && login->Ok_0.state@ == trace_of(m + d)
                && login->Ok_0.auth_url@ == login_address(client@, callback_url@, m, d)
                && login->Ok_0.machine_id@ == m && login->Ok_0.device_id@ == d,
            _ => login is Err && login->Err_0@ == ErrorV::plain(
                500,
                "无法生成 Trae 设备标识"@,
            ),
        },
{
    let machine_id = match machine {
        Some(machine) => machine,
        None => return Err(GatewayError::with_status(500, "无法生成 Trae 设备标识")),
    };
    let device_id = match device {
        Some(device) => device,
        None => return Err(GatewayError::with_status(500, "无法生成 Trae 设备标识")),
    };
    let state = machine_trace_id(machine_id.as_str(), device_id.as_str());
    proof {
        lemma_one_trace(machine_id@ + device_id@, state@);
    }
    let pairs = make_pairs(
        client,
        callback_url,
        state.as_str(),
        machine_id.as_str(),
        device_id.as_str(),
    );
    let mut page = text::owned(CONSOLE_HOST);
    page.append("/authorization");
    proof {
        lemma_login_page();
        urls::plain_addresses_take_queries(page@, urls::pairs_view(pairs@));
    }
    let auth_url = match urls::with_query(page.as_str(), &pairs) {
        Some(address) => address,
        None => return Err(GatewayError::with_status(500, "Trae 登录地址无效")),
    };
    Ok(Login { state, auth_url, machine_id, device_id })
}

/// What a login came back with.
#[derive(Debug)]
pub struct Callback {
    pub access_token: String,
    pub refresh_token: String,
    pub user_id: String,
    pub nickname: String,
    pub enterprise_id: String,
    pub expires_at: Option<i64>,
}

/// What such a return means.
#[verifier::ext_equal]
pub ghost struct CallbackV {
    pub access_token: Seq<char>,
    pub refresh_token: Seq<char>,
    pub user_id: Seq<char>,
    pub nickname: Seq<char>,
    pub enterprise_id: Seq<char>,
    pub expires_at: Option<int>,
}

impl View for Callback {
    type V = CallbackV;

    open spec fn view(&self) -> CallbackV {
        CallbackV {
            access_token: self.access_token@,
            refresh_token: self.refresh_token@,
            user_id: self.user_id@,
            nickname: self.nickname@,
            enterprise_id: self.enterprise_id@,
            expires_at: time::opt_time(self.expires_at),
        }
    }
}

/// What a return or a failure means.
pub open spec fn callback_view(outcome: Result<Callback, GatewayError>) -> Result<
    CallbackV,
    ErrorV,
> {
    match outcome {
        Ok(c) => Ok(c@),
        Err(e) => Err(e@),
    }
}

/// The value of the last pair of a name.
pub open spec fn last_value(pairs: Seq<(Seq<char>, Seq<char>)>, name: Seq<char>) -> Option<
    Seq<char>,
>
    decreases pairs.len(),
{
    if pairs.len() == 0 {
        None
    } else if pairs.last().0 == name {
        Some(pairs.last().1)
    } else {
        last_value(pairs.drop_last(), name)
    }
}

/// The value of the last pair of a name.
fn find_last<'a>(pairs: &'a Vec<(String, String)>, name: &str) -> (value: Option<&'a str>)
    ensures
        json::opt_text(value) == last_value(urls::pairs_view(pairs@), name@),
{
    let ghost all = urls::pairs_view(pairs@);
    let mut i: usize = pairs.len();
    assert(all.take(all.len() as int) =~= all);
    while i > 0
        invariant
            all == urls::pairs_view(pairs@),
            i <= pairs.len(),
            last_value(all, name@) == last_value(all.take(i as int), name@),
        decreases i,
    {
        assert(all.take(i as int).last() == (pairs@[i - 1].0@, pairs@[i - 1].1@));
        assert(all.take(i as int).drop_last() =~= all.take(i as int - 1));
        i -= 1;
        if text::same(pairs[i].0.as_str(), name) {
            return Some(pairs[i].1.as_str());
        }
    }
    None
}

/// The value of a hexadecimal digit.
pub open spec fn hex_digit_of(b: u8) -> Option<int> {
    if 48 <= b <= 57 {
        Some(b - 48)
    } else if 97 <= b <= 102 {
        Some(b - 97 + 10)
    } else if 65 <= b <= 70 {
        Some(b - 65 + 10)
    } else {
        None
    }
}

/// The value of a hexadecimal digit.
fn hex_digit(b: u8) -> (value: Option<u8>)
    ensures
        match value {
            Some(v) => hex_digit_of(b) == Some(v as int) && v < 16,
            None => hex_digit_of(b) is None,
        },
{
    if 48 <= b && b <= 57 {
        Some(b - 48)
    } else if 97 <= b && b <= 102 {
        Some(b - 97 + 10)
    } else if 65 <= b && b <= 70 {
        Some(b - 65 + 10)
    } else {
        None
    }
}

/// The characters that the bytes of an encoded text stand for, from a place on:
/// an escape is one character, a plus a space, and any other byte itself.
pub open spec fn unescaped(bytes: Seq<u8>, from: int) -> Seq<char>
    decreases bytes.len() - from,
{
    if from < 0 || from >= bytes.len() {
        Seq::empty()
    } else if bytes[from] == 37 && from + 2 < bytes.len() && hex_digit_of(bytes[from + 1]) is Some
        && hex_digit_of(bytes[from + 2]) is Some {
        seq![
            (hex_digit_of(bytes[from + 1]).unwrap() * 16 + hex_digit_of(
                bytes[from + 2],
            ).unwrap()) as char,
        ] + unescaped(bytes, from + 3)
    } else if bytes[from] == 43 {
        seq![' '] + unescaped(bytes, from + 1)
    } else {
        seq![bytes[from] as char] + unescaped(bytes, from + 1)
    }
}

/// The text that an encoded text stands for.
fn urlencoding_decode(value: &str) -> (out: String)
    ensures
        out@ == unescaped(encode_utf8(value@), 0),
{
    let bytes = value.as_bytes();
    let ghost all = encode_utf8(value@);
    let mut out: Vec<char> = Vec::new();
    let mut i: usize = 0;
    assert(Seq::<char>::empty() + unescaped(all, 0) =~= unescaped(all, 0));
    while i < bytes.len()
        invariant
            bytes@ == all,
            i <= bytes.len(),
            out@ + unescaped(all, i as int) == unescaped(all, 0),
        decreases bytes.len() - i,
    {
        let ghost before = out@;
        let ghost rest = unescaped(all, i as int);
        let b: u8 = bytes[i];
        let mut escaped: Option<u8> = None;
        if b == 37 && bytes.len() - i > 2 {
            if let Some(high) = hex_digit(bytes[i + 1]) {
                if let Some(low) = hex_digit(bytes[i + 2]) {
                    escaped = Some(high * 16 + low);
                }
            }
        }
        match escaped {
            Some(code) => {
                out.push(code as char);
                i += 3;
            },
            None => {
                if b == 43 {
                    out.push(' ');
                } else {
                    out.push(b as char);
                }
                i += 1;
            },
        }
        assert(rest =~= seq![out@.last()] + unescaped(all, i as int));
        assert(out@ + unescaped(all, i as int) =~= before + rest);
    }
    assert(out@ + Seq::<char>::empty() =~= out@);
    text::text_of(&out)
}

/// The value that a parameter writes, as it is or encoded once more; null where it
/// writes none.
pub open spec fn param_value(raw: Option<Seq<char>>) -> JsonV {
    match raw {
        None => JsonV::Null,
        Some(s) => match json::parsed_json(s) {
            Some(v) => v,
            None => match json::parsed_json(unescaped(encode_utf8(s), 0)) {
                Some(v) => v,
                None => JsonV::Null,
            },
        },
    }
}

/// The value that a parameter writes, as it is or encoded once more; null where it
/// writes none.
fn parse_json_param(raw: Option<&str>) -> (value: Json)
    ensures
        value@ == param_value(json::opt_text(raw)),
{
    let raw = match raw {
        Some(raw) => raw,
        None => return Json::Null,
    };
    if let Some(value) = json::parse_json(raw) {
        return value;
    }
    let decoded = urlencoding_decode(raw);
    match json::parse_json(decoded.as_str()) {
        Some(value) => value,
        None => Json::Null,
    }
}

/// The first entry that is a text or a number.
pub open spec fn first_plain(value: JsonV, keys: Seq<&str>) -> Seq<char>
    decreases keys.len(),
{
    if keys.len() == 0 {
        Seq::empty()
    } else {
        match value.field(keys[0]@) {
            JsonV::Str(s) => s,
            JsonV::Int(n) => JsonV::Int(n).shown(),
            JsonV::Float { bits, text } => text,
            _ => first_plain(value, keys.skip(1)),
        }
    }
}

/// The first entry that is a text or a number.
fn find_plain(value: &Json, keys: &[&str]) -> (content: String)
    ensures
        content@ == first_plain(value@, keys@),
{
    let mut i: usize = 0;
    assert(keys@.skip(0) =~= keys@);
    while i < keys.len()
        invariant
            i <= keys.len(),
            first_plain(value@, keys@) == first_plain(value@, keys@.skip(i as int)),
        decreases keys.len() - i,
    {
        assert(keys@.skip(i as int)[0] == keys@[i as int]);
        assert(keys@.skip(i as int).skip(1) =~= keys@.skip(i as int + 1));
        if let Some(found) = value.get(keys[i]) {
            match found {
                Json::Text(s) => return text::owned(s.as_str()),
                Json::Natural(_) => return found.shown(),
                Json::Negative(_) => return found.shown(),
                Json::Float(_) => return found.shown(),
                _ => {},
            }
        }
        i += 1;
    }
    String::new()
}

/// A time in milliseconds, from seconds or milliseconds told apart by their size.
pub open spec fn expire_of(value: Option<int>) -> Option<int> {
    match value {
        Some(n) => if n <= 0 {
            None
        } else if n > 1_000_000_000_000 {
            Some(n)
        } else {
            Some(n * 1000)
        },
        None => None,
    }
}

/// A time in milliseconds, from seconds or milliseconds told apart by their size.
fn normalize_expire(value: Option<i64>) -> (millis: Option<i64>)
    ensures
        time::opt_time(millis) == expire_of(time::opt_time(value)),
{
    match value {
        Some(n) => if n <= 0 {
            None
        } else if n > 1_000_000_000_000 {
            Some(n)
        } else {
            Some(n * 1000)
        },
        None => None,
    }
}

/// The integer of an entry.
fn int_at(value: &Json, key: &str) -> (n: Option<i64>)
    ensures
        time::opt_time(n) == value@.field(key@).as_int(),
{
    match value.get(key) {
        Some(found) => found.as_int(),
        None => None,
    }
}

/// The state that a login came back with.
pub open spec fn state_in(query: Seq<(Seq<char>, Seq<char>)>) -> Seq<char> {
    match last_value(query, "loginTraceID"@) {
        Some(s) => s,
        None => match last_value(query, "login_trace_id"@) {
            Some(s) => s,
            None => Seq::empty(),
        },
    }
}

/// What a login came back with, where it is the login that was begun.
pub open spec fn callback_in(raw: Seq<char>, expected: Seq<char>) -> Result<CallbackV, ErrorV> {
    match urls::parsed_url(raw) {
        None => errors::fail(400, "Trae 登录回调地址无效"@),
        Some(parts) => {
            let info = param_value(last_value(parts.query, "userInfo"@));
            let jwt = param_value(last_value(parts.query, "userJwt"@));
            let own = last_value(parts.query, "refreshToken"@);
            let refresh = if own is Some && own.unwrap().len() > 0 {
                own.unwrap()
            } else {
                first_plain(jwt, seq!["RefreshToken"])
            };
            let access = first_plain(jwt, seq!["Token"]);
            if state_in(parts.query) != expected {
                errors::fail(400, "Trae 登录回调 state 不一致，请重新发起登录"@)
            } else if refresh.len() == 0 && access.len() == 0 {
                errors::fail(400, "Trae 登录回调缺少凭证"@)
            } else {
                Ok(
                    CallbackV {
                        access_token: access,
                        refresh_token: refresh,
                        user_id: first_plain(info, seq!["UserID", "userId"]),
                        nickname: first_plain(info, seq!["ScreenName", "screenName", "name"]),
                        enterprise_id: first_plain(info, seq!["TenantID", "tenantId"]),
                        expires_at: expire_of(jwt.field("TokenExpireAt"@).as_int()),
                    },
                )
            }
        },
    }
}

/// What a login came back with, where it is the login that was begun.
pub fn parse_callback(raw_url: &str, expected_state: &str) -> (outcome: Result<
    Callback,
    GatewayError,
>)
    ensures
        callback_view(outcome) == callback_in(raw_url@, expected_state@),
{
    let parts = match urls::parse_url(raw_url) {
        Some(parts) => parts,
        None => return Err(GatewayError::with_status(400, "Trae 登录回调地址无效")),
    };
    let state = match find_last(&parts.query, "loginTraceID") {
        Some(s) => text::owned(s),
        None => match find_last(&parts.query, "login_trace_id") {
            Some(s) => text::owned(s),
            None => String::new(),
        },
    };
    if !text::same(state.as_str(), expected_state) {
        return Err(
            GatewayError::with_status(400, "Trae 登录回调 state 不一致，请重新发起登录"),
        );
    }
    let info = parse_json_param(find_last(&parts.query, "userInfo"));
    let jwt = parse_json_param(find_last(&parts.query, "userJwt"));
    proof {
        assert(["RefreshToken"]@ =~= seq!["RefreshToken"]);
        assert(["Token"]@ =~= seq!["Token"]);
        assert(["UserID", "userId"]@ =~= seq!["UserID", "userId"]);
        assert(["ScreenName", "screenName", "name"]@ =~= seq!["ScreenName", "screenName", "name"]);
        assert(["TenantID", "tenantId"]@ =~= seq!["TenantID", "tenantId"]);
    }
    let own = match find_last(&parts.query, "refreshToken") {
        Some(s) => text::owned(s),
        None => String::new(),
    };
    let refresh_token = if own.as_str().is_empty() {
        find_plain(&jwt, &["RefreshToken"])
    } else {
        own
    };
    let access_token = find_plain(&jwt, &["Token"]);
    if refresh_token.as_str().is_empty() && access_token.as_str().is_empty() {
        return Err(GatewayError::with_status(400, "Trae 登录回调缺少凭证"));
    }
    Ok(
        Callback {
            access_token,
            refresh_token,
            user_id: find_plain(&info, &["UserID", "userId"]),
            nickname: find_plain(&info, &["ScreenName", "screenName", "name"]),
            enterprise_id: find_plain(&info, &["TenantID", "tenantId"]),
            expires_at: normalize_expire(int_at(&jwt, "TokenExpireAt")),
        },
    )
}

/// The call that exchanges a refresh token.
pub open spec fn exchange_call(client: ClientV, refresh: Seq<char>) -> RequestV {
    RequestV {
        method: "POST"@,
        url: client.host + "/cloudide/api/v3/trae/oauth/ExchangeToken"@,
        headers: client.headers,
        body: Some(
            JsonV::object().put("ClientID"@, JsonV::Str(client.client_id)).put(
                "RefreshToken"@,
                JsonV::Str(refresh),
            ).put("ClientSecret"@, JsonV::Str("-"@)).put("UserID"@, JsonV::Str(Seq::empty())),
        ),
    }
}

/// A copy of pairs of texts.
fn copy_pairs(pairs: &Vec<(String, String)>) -> (copy: Vec<(String, String)>)
    ensures
        urls::pairs_view(copy@) == urls::pairs_view(pairs@),
{
    let ghost all = urls::pairs_view(pairs@);
    let mut copy = urls::no_pairs();
    assert(all.take(0) =~= Seq::empty());
    let mut i: usize = 0;
    while i < pairs.len()
        invariant
            all == urls::pairs_view(pairs@),
            i <= pairs.len(),
            urls::pairs_view(copy@) == all.take(i as int),
        decreases pairs.len() - i,
    {
        urls::push_pair(&mut copy, pairs[i].0.as_str(), pairs[i].1.as_str());
        assert(all.take(i as int + 1) =~= all.take(i as int).push(all[i as int]));
        i += 1;
    }
    assert(all.take(all.len() as int) =~= all);
    copy
}

/// The call that exchanges a refresh token.
pub fn exchange_request(client: &Client, refresh_token: &str) -> (request: ApiRequest)
    ensures
        request@ == exchange_call(client@, refresh_token@),
{
    let mut url = text::owned(client.host.as_str());
    url.append("/cloudide/api/v3/trae/oauth/ExchangeToken");
    let mut body = Json::object();
    body.put("ClientID", Json::text(client.client_id.as_str()));
    body.put("RefreshToken", Json::text(refresh_token));
    body.put("ClientSecret", Json::text("-"));
    body.put("UserID", Json::Text(String::new()));
    ApiRequest { method: "POST", url, headers: copy_pairs(&client.headers), body: Some(body) }
}

/// The call for who a user is.
pub fn user_info_request(client: &Client, access_token: &str) -> (request: ApiRequest)
    ensures
        request@ == (RequestV {
            method: "POST"@,
            url: client@.host + "/cloudide/api/v3/trae/GetUserInfo"@,
            headers: client@.headers.push(("X-Cloudide-Token"@, access_token@)),
            body: Some(
                JsonV::object().put("ReqSource"@, JsonV::Str("IDE"@)).put(
                    "IDEVersion"@,
                    JsonV::Str(client@.ide_version),
                ),
            ),
        }),
{
    let mut url = text::owned(client.host.as_str());
    url.append("/cloudide/api/v3/trae/GetUserInfo");
    let mut headers = copy_pairs(&client.headers);
    urls::push_pair(&mut headers, "X-Cloudide-Token", access_token);
    let mut body = Json::object();
    body.put("ReqSource", Json::text("IDE"));
    body.put("IDEVersion", Json::text(client.ide_version.as_str()));
    ApiRequest { method: "POST", url, headers, body: Some(body) }
}

/// How messages name the exchange of a refresh token.
pub const EXCHANGE_ACTION: &'static str = "Trae 登录凭证兑换";

/// How messages name a renewal.
pub const RENEWAL_ACTION: &'static str = "Trae 凭证续期";

/// How messages name the question who a user is.
pub const USER_INFO_ACTION: &'static str = "Trae 用户信息查询";

/// The error of a call that got no answer.
pub fn transport_error(action: &str, reason: &str) -> (error: GatewayError)
    ensures
        error@ == ErrorV::plain(502, action@ + "失败："@ + reason@),
{
    let mut message = text::owned(action);
    message.append("失败：");
    message.append(reason);
    GatewayError::with_status(502, message.as_str())
}

/// What an answer says of a failure.
pub open spec fn failure_in(payload: Option<JsonV>) -> Seq<char> {
    let said = match payload {
        Some(v) => match v.get("message"@) {
            Some(m) => Some(m),
            None => v.get("msg"@),
        },
        None => None,
    };
    match said {
        Some(JsonV::Str(s)) => s,
        _ => "上游返回非 2xx"@,
    }
}

/// The result in an answer: an object, or the one that it calls its result.
pub open spec fn result_in(response: ResponseV, action: Seq<char>) -> Result<JsonV, ErrorV> {
    if !response.ok {
        errors::fail(
            response.status as int,
            action + "失败："@ + failure_in(response.payload),
        )
    } else {
        match response.payload {
            Some(JsonV::Obj(m)) => Ok(
                match JsonV::Obj(m).get("Result"@) {
                    Some(v) => v,
                    None => JsonV::Obj(m),
                },
            ),
            _ => errors::fail(502, action + "未返回有效 JSON 对象"@),
        }
    }
}

/// What a value or a failure means.
pub open spec fn value_view(outcome: Result<Json, GatewayError>) -> Result<JsonV, ErrorV> {
    match outcome {
        Ok(v) => Ok(v@),
        Err(e) => Err(e@),
    }
}

/// What an answer says of a failure.
fn failure_text(payload: Option<&Json>) -> (message: String)
    ensures
        message@ == failure_in(json::opt_view(payload)),
{
    let said = match payload {
        Some(value) => match value.get("message") {
            Some(message) => Some(message),
            None => value.get("msg"),
        },
        None => None,
    };
    match said {
        Some(value) => match value.as_text() {
            Some(s) => text::owned(s),
            None => text::owned("上游返回非 2xx"),
        },
        None => text::owned("上游返回非 2xx"),
    }
}

/// The result in an answer: an object, or the one that it calls its result.
pub fn response_payload(response: ApiResponse, action: &str) -> (outcome: Result<
    Json,
    GatewayError,
>)
    ensures
        value_view(outcome) == result_in(response@, action@),
{
    let mut message = text::owned(action);
    if !response.ok {
        let payload = match &response.payload {
            Some(value) => Some(value),
            None => None,
        };
        message.append("失败：");
        message.append(failure_text(payload).as_str());
        return Err(GatewayError::with_status(response.status as i32, message.as_str()));
    }
    if let Some(value) = response.payload {
        if value.is_object() {
            return Ok(
                match value.get("Result") {
                    Some(inner) => inner.clone(),
                    None => value,
                },
            );
        }
    }
    message.append("未返回有效 JSON 对象");
    Err(GatewayError::with_status(502, message.as_str()))
}

/// When the token of a result ends: at the time that it names, or after the
/// seconds that it names.
pub open spec fn end_in(result: JsonV, now_ms: int) -> Option<int> {
    let named = expire_of(result.field("TokenExpireAt"@).as_int());
    let seconds = result.field("TokenExpireDuration"@).as_int();
    if named is Some {
        named
    } else if seconds is Some && seconds.unwrap() > 0 {
        Some(now_ms + seconds.unwrap() * 1000)
    } else {
        None
    }
}

/// Whether the end of a result's token can be written as a time.
pub open spec fn end_fits(result: JsonV, now_ms: int) -> bool {
    end_in(result, now_ms) matches Some(t) ==> t <= i64::MAX
}

/// Whether the end of the token in an answer can be written as a time.
pub open spec fn answer_fits(response: ResponseV, now_ms: int) -> bool {
    match result_in(response, Seq::empty()) {
        Ok(result) => end_fits(result, now_ms),
        Err(_) => true,
    }
}

/// Whether the end of the token in an answer can be written as a time.
pub fn has_fitting_end(response: &ApiResponse, now_ms: u64) -> (yes: bool)
    ensures
        yes == answer_fits(response@, now_ms as int),
{
    if !response.ok {
        return true;
    }
    match &response.payload {
        Some(value) => if value.is_object() {
            match value.get("Result") {
                Some(inner) => fits(inner, now_ms),
                None => fits(value, now_ms),
            }
        } else {
            true
        },
        None => true,
    }
}

/// Whether the end of a result's token can be written as a time.
fn fits(result: &Json, now_ms: u64) -> (yes: bool)
    ensures
        yes == end_fits(result@, now_ms as int),
{
    if normalize_expire(int_at(result, "TokenExpireAt")).is_some() {
        return true;
    }
    match int_at(result, "TokenExpireDuration") {
        Some(seconds) => seconds <= 0 || now_ms as i128 + seconds as i128 * 1000 <= i64::MAX as i128,
        None => true,
    }
}

/// When the token of a result ends.
fn read_end(result: &Json, now_ms: u64) -> (millis: Option<i64>)
    requires
        end_fits(result@, now_ms as int),
    ensures
        time::opt_time(millis) == end_in(result@, now_ms as int),
{
    let named = normalize_expire(int_at(result, "TokenExpireAt"));
    if named.is_some() {
        return named;
    }
    match int_at(result, "TokenExpireDuration") {
        Some(seconds) => if seconds > 0 {
            Some((now_ms as i128 + seconds as i128 * 1000) as i64)
        } else {
            None
        },
        None => None,
    }
}

/// A text entry that is not empty.
pub open spec fn said(result: JsonV, key: Seq<char>) -> Option<Seq<char>> {
    match result.text_at(key) {
        Some(s) => if s.len() > 0 {
            Some(s)
        } else {
            None
        },
        None => None,
    }
}

/// A text entry that is not empty.
fn said_of(result: &Json, key: &str) -> (content: Option<String>)
    ensures
        json::owned_text(content) == said(result@, key@),
{
    match result.text_at(key) {
        Some(s) => if s.is_empty() {
            None
        } else {
            Some(text::owned(s))
        },
        None => None,
    }
}

/// What a login comes to by the result of exchanging its refresh token.
pub open spec fn exchanged(callback: CallbackV, result: JsonV, now_ms: int) -> Result<
    CallbackV,
    ErrorV,
> {
    match said(result, "Token"@) {
        None => errors::fail(502, "Trae 登录凭证兑换缺少 Token"@),
        Some(token) => Ok(
            CallbackV {
                access_token: token,
                refresh_token: match said(result, "RefreshToken"@) {
                    Some(s) => s,
                    None => callback.refresh_token,
                },
                expires_at: end_in(result, now_ms),
                ..callback
            },
        ),
    }
}

/// What a login comes to by the answer to exchanging its refresh token. A login
/// without one is not exchanged.
pub fn exchange(callback: Callback, response: ApiResponse, now_ms: u64) -> (outcome: Result<
    Callback,
    GatewayError,
>)
    requires
        answer_fits(response@, now_ms as int),
    ensures
        callback_view(outcome) == match result_in(response@, EXCHANGE_ACTION@) {
            Err(e) => Err(e),
            Ok(result) => exchanged(callback@, result, now_ms as int),
        },
{
    let result = match response_payload(response, EXCHANGE_ACTION) {
        Ok(result) => result,
        Err(error) => return Err(error),
    };
    let mut callback = callback;
    callback.access_token = match said_of(&result, "Token") {
        Some(token) => token,
        None => return Err(GatewayError::with_status(502, "Trae 登录凭证兑换缺少 Token")),
    };
    if let Some(refresh) = said_of(&result, "RefreshToken") {
        callback.refresh_token = refresh;
    }
    callback.expires_at = read_end(&result, now_ms);
    Ok(callback)
}

/// Whether to ask who the user of a login is.
pub fn needs_user_info(callback: &Callback) -> (yes: bool)
    ensures
        yes == (callback@.user_id.len() == 0 && callback@.access_token.len() > 0),
{
    callback.user_id.as_str().is_empty() && !callback.access_token.as_str().is_empty()
}

/// A text, or what an entry says where it is empty.
pub open spec fn filled(known: Seq<char>, result: JsonV, key: Seq<char>) -> Seq<char> {
    if known.len() > 0 {
        known
    } else {
        match result.text_at(key) {
            Some(s) => s,
            None => Seq::empty(),
        }
    }
}

/// A login with who its user is.
pub open spec fn with_user(callback: CallbackV, result: JsonV) -> Result<CallbackV, ErrorV> {
    match said(result, "UserID"@) {
        None => errors::fail(502, "Trae 未返回用户标识"@),
        Some(user) => Ok(
            CallbackV {
                user_id: user,
                nickname: filled(callback.nickname, result, "ScreenName"@),
                enterprise_id: filled(callback.enterprise_id, result, "EnterpriseID"@),
                ..callback
            },
        ),
    }
}

/// A text, or what an entry says where it is empty.
fn fill(known: String, result: &Json, key: &str) -> (content: String)
    ensures
        content@ == filled(known@, result@, key@),
{
    if !known.as_str().is_empty() {
        return known;
    }
    match result.text_at(key) {
        Some(s) => text::owned(s),
        None => String::new(),
    }
}

/// A login with who its user is, by the answer to that question.
pub fn fill_user_info(callback: Callback, response: ApiResponse) -> (outcome: Result<
    Callback,
    GatewayError,
>)
    ensures
        callback_view(outcome) == match result_in(response@, USER_INFO_ACTION@) {
            Err(e) => Err(e),
            Ok(result) => with_user(callback@, result),
        },
{
    let result = match response_payload(response, USER_INFO_ACTION) {
        Ok(result) => result,
        Err(error) => return Err(error),
    };
    let user_id = match said_of(&result, "UserID") {
        Some(user) => user,
        None => return Err(GatewayError::with_status(502, "Trae 未返回用户标识")),
    };
    Ok(
        Callback {
            access_token: callback.access_token,
            refresh_token: callback.refresh_token,
            user_id,
            nickname: fill(callback.nickname, &result, "ScreenName"),
            enterprise_id: fill(callback.enterprise_id, &result, "EnterpriseID"),
            expires_at: callback.expires_at,
        },
    )
}

/// The credentials of a login.
pub fn credentials_of(callback: Callback, machine_id: &str, device_id: &str) -> (credentials:
    Credentials)
    ensures
        credentials@ == (CredentialsV {
            access_token: callback@.access_token,
            refresh_token: callback@.refresh_token,
            expires_at: callback@.expires_at,
            user_id: callback@.user_id,
            nickname: callback@.nickname,
            enterprise_id: callback@.enterprise_id,
            machine_id: machine_id@,
            device_id: device_id@,
        }),
{
    Credentials {
        access_token: callback.access_token,
        refresh_token: callback.refresh_token,
        expires_at: callback.expires_at,
        user_id: callback.user_id,
        nickname: callback.nickname,
        enterprise_id: callback.enterprise_id,
        machine_id: text::owned(machine_id),
        device_id: text::owned(device_id),
    }
}

/// The call that renews credentials; those without a refresh token cannot be.
pub fn refresh_request(client: &Client, credentials: &Credentials) -> (request: Result<
    ApiRequest,
    GatewayError,
>)
    ensures
        crate::http::request_view(request) == if credentials@.refresh_token.len() == 0 {
            errors::fail(400, "Trae 账号缺少 refreshToken，无法续期"@)
        } else {
            Ok(exchange_call(client@, credentials@.refresh_token))
        },
{
    if credentials.refresh_token.as_str().is_empty() {
        return Err(GatewayError::with_status(400, "Trae 账号缺少 refreshToken，无法续期"));
    }
    Ok(exchange_request(client, credentials.refresh_token.as_str()))
}

/// What credentials or a failure mean.
pub open spec fn credentials_view(outcome: Result<Credentials, GatewayError>) -> Result<
    CredentialsV,
    ErrorV,
> {
    match outcome {
        Ok(c) => Ok(c@),
        Err(e) => Err(e@),
    }
}

/// Credentials renewed by a result.
pub open spec fn renewed(known: CredentialsV, result: JsonV, now_ms: int) -> Result<
    CredentialsV,
    ErrorV,
> {
    match said(result, "Token"@) {
        None => errors::fail(502, "Trae 凭证续期缺少 Token"@),
        Some(token) => Ok(
            CredentialsV {
                access_token: token,
                refresh_token: match said(result, "RefreshToken"@) {
                    Some(s) => s,
                    None => known.refresh_token,
                },
                expires_at: end_in(result, now_ms),
                ..known
            },
        ),
    }
}

/// Credentials renewed by an answer: its token, and its refresh token where it
/// names one.
pub fn refresh(known: &Credentials, response: ApiResponse, now_ms: u64) -> (outcome: Result<
    Credentials,
    GatewayError,
>)
    requires
        answer_fits(response@, now_ms as int),
    ensures
        credentials_view(outcome) == match result_in(response@, RENEWAL_ACTION@) {
            Err(e) => Err(e),
            Ok(result) => renewed(known@, result, now_ms as int),
        },
{
    let result = match response_payload(response, RENEWAL_ACTION) {
        Ok(result) => result,
        Err(error) => return Err(error),
    };
    let token = match said_of(&result, "Token") {
        Some(token) => token,
        None => return Err(GatewayError::with_status(502, "Trae 凭证续期缺少 Token")),
    };
    let refresh_token = match said_of(&result, "RefreshToken") {
        Some(refresh) => refresh,
        None => text::owned(known.refresh_token.as_str()),
    };
    Ok(
        Credentials {
            access_token: token,
            refresh_token,
            expires_at: read_end(&result, now_ms),
            user_id: text::owned(known.user_id.as_str()),
            nickname: text::owned(known.nickname.as_str()),
            enterprise_id: text::owned(known.enterprise_id.as_str()),
            machine_id: text::owned(known.machine_id.as_str()),
            device_id: text::owned(known.device_id.as_str()),
        },
    )
}

/// A login that comes back with a state other than the one it was begun with
/// yields nothing, whatever else it comes back with.
pub proof fn foreign_callbacks_are_refused(raw: Seq<char>, expected: Seq<char>)
    requires
        callback_in(raw, expected) is Ok,
    ensures
        urls::parsed_url(raw) is Some,
        state_in(urls::parsed_url(raw).unwrap().query) == expected,
{
}

/// A renewal keeps the account, its machine and its device, and what could be
/// renewed once can be renewed again.
pub proof fn renewals_keep_the_account(known: CredentialsV, result: JsonV, now_ms: int)
    requires
        renewed(known, result, now_ms) is Ok,
    ensures
        ({
            let next = renewed(known, result, now_ms)->Ok_0;
            &&& next.user_id == known.user_id
            &&& next.machine_id == known.machine_id
            &&& next.device_id == known.device_id
            &&& next.access_token.len() > 0
            &&& known.refresh_token.len() > 0 ==> next.refresh_token.len() > 0
        }),
{
}

} // verus!
