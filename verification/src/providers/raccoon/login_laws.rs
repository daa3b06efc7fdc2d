//! What Raccoon's logins come to: the tokens that are read, renewed, kept and shown
//! are those that the service gave.
use super::credentials;
use super::credentials::{
    file_credentials, latest_of, renewed, snapshot_of, summary, updated_file, CredentialOrigin,
    CredentialsV, SnapshotV, DESKTOP_ACCOUNT_ID,
};
use super::jwt;
use super::jwt::bare;
use super::oauth;
use super::oauth::{callback_code, exchange_call, exchanged};
use crate::errors::ErrorV;
use crate::http::ResponseV;
use crate::json;
use crate::json::JsonV;
use crate::number;
use crate::text;
use crate::time::Millis;
use crate::urls;
use vstd::prelude::*;
use vstd::string::*;

verus! {

/// The words tell one another apart.
proof fn lemma_words()
    ensures
        "id"@.len() == 2,
        "exp"@.len() == 3,
        "msg"@.len() == 3,
        "exp"@[0] == 'e',
        "msg"@[0] == 'm',
        "code"@.len() == 4,
        "data"@.len() == 4,
        "name"@.len() == 4,
        "code"@[0] == 'c',
        "data"@[0] == 'd',
        "name"@[0] == 'n',
        "mtime"@.len() == 5,
        "token"@.len() == 5,
        "mtime"@[0] == 'm',
        "token"@[0] == 't',
        "userId"@.len() == 6,
        "desktop"@.len() == 7,
        "message"@.len() == 7,
        "desktop"@[0] == 'd',
        "message"@[0] == 'm',
        "expiresAt"@.len() == 9,
        "tokenTail"@.len() == 9,
        "expiresAt"@[0] == 'e',
        "tokenTail"@[0] == 't',
        "auth_token"@.len() == 10,
        "accessToken"@.len() == 11,
        "access_token"@.len() == 12,
        "refreshToken"@.len() == 12,
        "access_token"@[0] == 'a',
        "refreshToken"@[0] == 'r',
        "refresh_token"@.len() == 13,
        "tokenExpiresAt"@.len() == 14,
        "hasRefreshToken"@.len() == 15,
        "office_identity"@.len() == 15,
        "office_org_name"@.len() == 15,
        "office_org_role"@.len() == 15,
        "hasRefreshToken"@[0] == 'h',
        "hasRefreshToken"@[7] == 'e',
        "hasRefreshToken"@[11] == 'o',
        "office_identity"@[0] == 'o',
        "office_identity"@[7] == 'i',
        "office_identity"@[11] == 't',
        "office_org_name"@[0] == 'o',
        "office_org_name"@[7] == 'o',
        "office_org_name"@[11] == 'n',
        "office_org_role"@[0] == 'o',
        "office_org_role"@[7] == 'o',
        "office_org_role"@[11] == 'r',
        "authorization_code"@.len() == 18,
{
    reveal_strlit("id");
    reveal_strlit("exp");
    reveal_strlit("msg");
    reveal_strlit("code");
    reveal_strlit("data");
    reveal_strlit("name");
    reveal_strlit("mtime");
    reveal_strlit("token");
    reveal_strlit("userId");
    reveal_strlit("desktop");
    reveal_strlit("message");
    reveal_strlit("expiresAt");
    reveal_strlit("tokenTail");
    reveal_strlit("auth_token");
    reveal_strlit("accessToken");
    reveal_strlit("access_token");
    reveal_strlit("refreshToken");
    reveal_strlit("refresh_token");
    reveal_strlit("tokenExpiresAt");
    reveal_strlit("hasRefreshToken");
    reveal_strlit("office_identity");
    reveal_strlit("office_org_name");
    reveal_strlit("office_org_role");
    reveal_strlit("authorization_code");
}

/// Whether a text holds no blank.
pub open spec fn is_solid(s: Seq<char>) -> bool {
    s.len() > 0 && forall|i: int| 0 <= i < s.len() ==> !text::is_space(#[trigger] s[i])
}

/// A token is the same with and without the word that leads it in a header.
pub proof fn tokens_lose_only_their_lead(token: Seq<char>)
    requires
        is_solid(token),
    ensures
        bare(token) == token,
        bare("Bearer "@ + token) == token,
        bare("bearer "@ + token) == token,
{
    reveal_strlit("Bearer ");
    reveal_strlit("bearer ");
    reveal_strlit("bearer");
    assert(!text::is_space(token[0]));
    assert(!text::is_space(token[token.len() - 1]));
    text::lemma_trimmed(token);
    assert(text::trimmed(token) == token);
    if token.len() > 6 {
        assert(!text::is_space(token[6]));
    }
    assert(text::ascii_lowercase("Bearer "@.take(6)) =~= "bearer"@);
    assert(text::ascii_lowercase("bearer "@.take(6)) =~= "bearer"@);
    lemma_led("Bearer "@, token);
    lemma_led("bearer "@, token);
}

proof fn lemma_led(lead: Seq<char>, token: Seq<char>)
    requires
        is_solid(token),
        lead.len() == 7,
        lead[6] == ' ',
        !text::is_space(lead[0]),
        text::ascii_lowercase(lead.take(6)) == "bearer"@,
    ensures
        bare(lead + token) == token,
{
    let whole = lead + token;
    assert(!text::is_space(token[token.len() - 1]));
    assert(!text::is_space(token[0]));
    assert(whole.last() == token.last());
    text::lemma_trimmed(whole);
    assert(text::trimmed(whole) == whole);
    assert(whole.take(6) =~= lead.take(6));
    let rest = whole.skip(6);
    assert(rest.skip(1) =~= token);
    assert(rest[0] == ' ');
    assert(text::trimmed_start(rest) == text::trimmed_start(token));
    assert(text::trimmed_start(token) == token);
    text::lemma_trimmed(token);
}

/// A login file gives the token under the first of its names that holds one, with
/// the token to renew it, and who and until when by the token itself.
pub proof fn login_files_are_read(file: JsonV, s: Seq<char>, r: Seq<char>)
    ensures
        file.get("access_token"@) == Some(JsonV::Str(s)) && bare(s).len() > 0 ==> {
            &&& file_credentials(file) matches Ok(own)
            &&& own.token == bare(s)
            &&& file.get("refresh_token"@) == Some(JsonV::Str(r)) ==> own.refresh_token == bare(r)
            &&& file.get("refresh_token"@) is None ==> own.refresh_token == Seq::<char>::empty()
            &&& own.expires_at == jwt::expiry_in(own.token)
            &&& own.user_id == credentials::user_of(own.token)
            &&& own.id == DESKTOP_ACCOUNT_ID@
            &&& own.origin == CredentialOrigin::AuthFile
        },
        file.get("access_token"@) is None && file.get("token"@) == Some(JsonV::Str(s)) && bare(
            s,
        ).len() > 0 ==> (file_credentials(file) matches Ok(own) && own.token == bare(s)),
        file.get("access_token"@) is None && file.get("token"@) is None && file.get("auth_token"@)
            == Some(JsonV::Str(s)) && bare(s).len() > 0 ==> (file_credentials(file) matches Ok(own)
            && own.token == bare(s)),
        file.get("access_token"@) is None && file.get("token"@) is None && file.get("auth_token"@)
            is None ==> file_credentials(file) is Err,
{
    lemma_words();
    reveal_with_fuel(credentials::token_at, 4);
    let keys = seq!["access_token", "token", "auth_token"];
    assert(keys.skip(1) =~= seq!["token", "auth_token"]);
    assert(keys.skip(1).skip(1) =~= seq!["auth_token"]);
    assert(keys.skip(1).skip(1).skip(1) =~= Seq::empty());
    assert(seq!["refresh_token"].skip(1) =~= Seq::empty());
    if file.get("refresh_token"@) == Some(JsonV::Str(r)) && bare(r).len() == 0 {
        assert(bare(r) =~= Seq::empty());
    }
}

/// A summary shows whose the login is and until when, but of the token only its
/// last letters.
pub proof fn summaries_keep_the_token_secret(own: CredentialsV, modified_at: int, end: Millis)
    ensures
        ({
            let shown = summary(own, modified_at);
            &&& shown.get("userId"@) == Some(JsonV::Str(own.user_id))
            &&& shown.get("tokenTail"@) matches Some(JsonV::Str(tail))
            &&& tail.is_suffix_of(own.token) && tail.len() <= 4
            &&& own.token.len() >= 4 ==> tail.len() == 4
            &&& own.expires_at == Some(end) ==> shown.get("tokenExpiresAt"@) == Some(
                json::number_value(end.bits),
            )
            &&& own.expires_at is None ==> shown.get("tokenExpiresAt"@) == Some(JsonV::Null)
            &&& shown.get("hasRefreshToken"@) == Some(JsonV::Bool(own.refresh_token.len() > 0))
            &&& shown.get("mtime"@) == Some(JsonV::Int(modified_at))
        }),
{
    lemma_words();
    let tail = credentials::tail_of(own.token);
    assert(tail =~= own.token.subrange(own.token.len() - tail.len(), own.token.len() as int));
}

/// A renewal is written to a login file only over the login that was renewed, and
/// then the file holds the new tokens; what was not renewed stays.
pub proof fn renewals_are_written(
    file: JsonV,
    expected: CredentialsV,
    access: Seq<char>,
    refresh: Seq<char>,
)
    requires
        file is Obj,
    ensures
        updated_file(file, expected, access, refresh) matches Ok(next) ==> {
            &&& access.len() > 0 ==> next.get("access_token"@) == Some(JsonV::Str(bare(access)))
            &&& access.len() == 0 ==> next.get("access_token"@) == file.get("access_token"@)
            &&& refresh.len() > 0 ==> next.get("refresh_token"@) == Some(JsonV::Str(bare(refresh)))
            &&& refresh.len() == 0 ==> next.get("refresh_token"@) == file.get("refresh_token"@)
        },
        file_credentials(file) matches Ok(own) ==> {
            &&& own.token == expected.token && own.refresh_token == expected.refresh_token
                <==> updated_file(file, expected, access, refresh) is Ok
        },
        file_credentials(file) is Err ==> updated_file(file, expected, access, refresh) is Err,
{
    lemma_words();
}

/// The credentials in the record of an account are its own.
pub proof fn records_are_read(record: JsonV, token: Seq<char>, s: Seq<char>, bits: u64)
    requires
        record.get("accessToken"@) == Some(JsonV::Str(token)),
        token.len() > 0,
        record.get("desktop"@) != Some(JsonV::Bool(true)),
        record.get("id"@) != Some(JsonV::Str(DESKTOP_ACCOUNT_ID@)),
    ensures
        ({
            &&& snapshot_of(Some(record)) matches Ok(SnapshotV::Stored(own))
            &&& own.token == token
            &&& record.get("id"@) == Some(JsonV::Str(s)) ==> own.id == s
            &&& record.get("refreshToken"@) == Some(JsonV::Str(s)) ==> own.refresh_token == s
            &&& record.get("userId"@) == Some(JsonV::Str(s)) ==> own.user_id == s
            &&& record.get("expiresAt"@) is Some && json::number_bits(record.field("expiresAt"@))
                == Some(bits) ==> own.expires_at == Some(Millis { bits })
            &&& record.get("expiresAt"@) is None ==> own.expires_at == jwt::expiry_in(token)
            &&& own.origin == CredentialOrigin::AccountStore
        }),
{
    lemma_words();
}

/// A record without a token cannot be used, and one of the desktop client speaks of
/// that client's file.
pub proof fn records_without_a_token(record: JsonV)
    ensures
        record.get("desktop"@) == Some(JsonV::Bool(true)) ==> snapshot_of(Some(record)) == Ok::<
            SnapshotV,
            ErrorV,
        >(SnapshotV::Desktop),
        record.get("desktop"@) is None && record.get("id"@) is None && record.get("accessToken"@)
            is None ==> (snapshot_of(Some(record)) matches Err(e) && e.status == 401),
        snapshot_of(None) == Ok::<SnapshotV, ErrorV>(SnapshotV::Desktop),
{
    lemma_words();
}

/// A renewal takes over the tokens that the service answers with; a token to renew
/// that it does not answer with, the user and the end stay where the new token does
/// not say them.
pub proof fn renewals_take_over_the_answer(
    known: CredentialsV,
    response: ResponseV,
    payload: JsonV,
    s: Seq<char>,
    r: Seq<char>,
)
    requires
        response.ok,
        response.payload == Some(payload),
        payload.at("data"@, "access_token"@) == Some(JsonV::Str(s)),
    ensures
        bare(s).len() > 0 ==> {
            &&& renewed(known, response) matches Ok(next)
            &&& next.token == bare(s)
            &&& payload.at("data"@, "refresh_token"@) == Some(JsonV::Str(r)) && bare(r).len() > 0
                ==> next.refresh_token == bare(r)
            &&& payload.at("data"@, "refresh_token"@) is None ==> next.refresh_token
                == known.refresh_token
            &&& jwt::expiry_in(bare(s)) is Some ==> next.expires_at == jwt::expiry_in(bare(s))
            &&& jwt::expiry_in(bare(s)) is None ==> next.expires_at == known.expires_at
            &&& credentials::user_of(bare(s)).len() > 0 ==> next.user_id == credentials::user_of(
                bare(s),
            )
            &&& credentials::user_of(bare(s)).len() == 0 ==> next.user_id == known.user_id
        },
        bare(s).len() == 0 ==> (renewed(known, response) matches Err(e) && e.status == 401),
{
    lemma_words();
    text::lemma_trimmed(Seq::empty());
    assert(bare(Seq::empty()) =~= Seq::empty());
}

/// A refused renewal is told with its status and the words of the service.
pub proof fn refused_renewals_are_told(
    known: CredentialsV,
    response: ResponseV,
    payload: JsonV,
    s: Seq<char>,
)
    requires
        !response.ok,
        response.payload == Some(payload),
        payload.get("message"@) == Some(JsonV::Str(s)),
        s.len() > 0,
    ensures
        renewed(known, response) matches Err(e) && text::has_part(e.message, s) && text::has_part(
            e.message,
            text::decimal(response.status as nat),
        ) && (response.status == 401 <==> e.status == 401) && (response.status != 401 <==> e.status
            == 502),
{
    lemma_words();
    let number = text::decimal(response.status as nat);
    let head = "小浣熊刷新接口失败（HTTP "@;
    let whole = head + number + "）: "@ + s;
    assert(whole =~= head + number + ("）: "@ + s));
    text::lemma_has_part(head, number, "）: "@ + s);
    text::lemma_has_part(head + number + "）: "@, s, Seq::empty());
}

/// What counts after a renewal was overtaken: the record of the account as it is
/// now, unless the account is gone.
pub proof fn the_latest_record_counts(previous: CredentialsV, record: JsonV)
    requires
        previous.origin == CredentialOrigin::AccountStore,
        previous.id.len() > 0,
    ensures
        latest_of(previous, Some(record)) == snapshot_of(Some(record)),
        latest_of(previous, None) matches Err(e) && e.status == 401,
{
}

/// A login on the web ends with the tokens that the service answers with, and with
/// what it says of the office.
pub proof fn web_logins_hand_out_the_tokens(
    response: ResponseV,
    payload: JsonV,
    s: Seq<char>,
    r: Seq<char>,
    word: Seq<char>,
)
    requires
        response.ok,
        response.payload == Some(payload),
        payload.get("code"@) is None,
        payload.at("data"@, "access_token"@) == Some(JsonV::Str(s)),
        payload.at("data"@, "refresh_token"@) == Some(JsonV::Str(r)),
        bare(s).len() > 0,
        bare(r).len() > 0,
        text::trimmed(word).len() > 0,
    ensures
        ({
            &&& exchanged(response) matches Ok(record)
            &&& record.get("access_token"@) == Some(JsonV::Str(bare(s)))
            &&& record.get("refresh_token"@) == Some(JsonV::Str(bare(r)))
            &&& payload.at("data"@, "office_identity"@) == Some(JsonV::Str(word)) ==> record.get(
                "office_identity"@,
            ) == Some(JsonV::Str(text::trimmed(word)))
            &&& payload.at("data"@, "office_org_name"@) == Some(JsonV::Str(word)) ==> record.get(
                "office_org_name"@,
            ) == Some(JsonV::Str(text::trimmed(word)))
            &&& payload.at("data"@, "office_org_role"@) == Some(JsonV::Str(word)) ==> record.get(
                "office_org_role"@,
            ) == Some(JsonV::Str(text::trimmed(word)))
        }),
{
    lemma_words();
}

/// A login on the web that the service refuses is told in its words, with its code.
pub proof fn refused_web_logins_are_told(
    response: ResponseV,
    payload: JsonV,
    s: Seq<char>,
    code: i64,
)
    requires
        !response.ok,
        response.payload == Some(payload),
        payload.get("message"@) == Some(JsonV::Str(s)),
        s.len() > 0,
        s != "internal_server_error"@,
        payload.get("code"@) == Some(JsonV::Int(code as int)),
    ensures
        ({
            &&& exchanged(response) matches Err(e)
            &&& e.code == Some(text::decimal_int(code as int))
            &&& code == oauth::CODE_EXPIRED ==> e.status == 400
            &&& code != oauth::CODE_EXPIRED ==> e.message == s
            &&& code != oauth::CODE_EXPIRED && 400 <= response.status < 500 ==> e.status
                == response.status
            &&& code != oauth::CODE_EXPIRED && response.status >= 500 ==> e.status == 502
        }),
{
    lemma_words();
}

/// The code that came back is handed in, and the answer to it is asked for where the
/// service wants it.
pub proof fn codes_are_handed_in(code: Seq<char>, state: Seq<char>, base: Seq<char>)
    requires
        0 < text::trimmed(code).len() <= oauth::MAX_CODE_LENGTH,
        text::trimmed(state).len() > 0,
    ensures
        ({
            &&& exchange_call(code, state, base) matches Ok(request)
            &&& request.body matches Some(body)
            &&& body.get("authorization_code"@) == Some(JsonV::Str(text::trimmed(code)))
            &&& base.is_prefix_of(request.url)
            &&& request.method == "POST"@
        }),
        exchange_call(Seq::empty(), state, base) is Err,
{
    lemma_words();
    let request = exchange_call(code, state, base)->Ok_0;
    assert(request.url.subrange(0, base.len() as int) =~= base);
    text::lemma_trimmed(Seq::empty());
}

/// A callback gives the code that it carries, where it is one and answers the login
/// that was begun.
pub proof fn callbacks_give_their_code(raw: Seq<char>, expected: Seq<char>, parts: urls::UrlV)
    requires
        urls::parsed_url(text::trimmed(raw)) == Some(parts),
        oauth::is_callback(parts),
        0 < urls::first_value(parts.query, "code"@).len() <= oauth::MAX_CODE_LENGTH,
        0 < expected.len() <= oauth::MAX_STATE_LENGTH,
    ensures
        urls::first_value(parts.query, "state"@) == expected ==> callback_code(raw, expected)
            == Ok::<Seq<char>, ErrorV>(urls::first_value(parts.query, "code"@)),
        urls::first_value(parts.query, "state"@) != expected ==> (callback_code(
            raw,
            expected,
        ) matches Err(e) && e.status == 400),
{
}

/// The end of a token is what it claims, in thousandths; a token that claims none,
/// or none that is above zero, has none.
pub proof fn tokens_tell_their_end(token: Seq<char>, claims: JsonV, bits: u64)
    requires
        jwt::claims_in(token) == Some(claims),
    ensures
        claims.get("exp"@) is None ==> jwt::expiry_in(token) is None,
        claims.get("exp"@) is Some && json::read_number(claims.field("exp"@)) == Some(bits)
            && 0 < bits < 0x8000_0000_0000_0000 ==> jwt::expiry_in(token) == Some(
            Millis { bits: number::thousandfold(bits) },
        ),
        claims.get("exp"@) is Some && json::read_number(claims.field("exp"@)) == Some(bits) && (bits
            == 0 || bits >= 0x8000_0000_0000_0000) ==> jwt::expiry_in(token) is None,
{
}

/// The claims of a token do not depend on the word that leads it, nor on which of
/// the two alphabets it is written in.
pub proof fn alphabets_do_not_matter(s: Seq<char>)
    requires
        forall|i: int| 0 <= i < s.len() ==> #[trigger] s[i] != '-' && s[i] != '_',
    ensures
        jwt::base64_url_bytes(s) == jwt::base64_bytes(s),
        jwt::base64_url_bytes(
            s.map_values(
                |c: char|
                    if c == '+' {
                        '-'
                    } else if c == '/' {
                        '_'
                    } else {
                        c
                    },
            ),
        ) == jwt::base64_bytes(s),
{
    let safe = s.map_values(
        |c: char|
            if c == '+' {
                '-'
            } else if c == '/' {
                '_'
            } else {
                c
            },
    );
    assert(s.map_values(|c: char| jwt::usual(c)) =~= s);
    assert(safe.map_values(|c: char| jwt::usual(c)) =~= s);
}

/// A user that a token names in hexadecimal is known by the decimal number, with or
/// without the mark of the base; else by the first name that the token gives.
pub proof fn users_are_known_by_number(claims: JsonV, s: Seq<char>)
    requires
        claims.get("sid"@) == Some(JsonV::Str(s)),
        is_solid(s),
        jwt::all_hex(s),
    ensures
        jwt::user_in(claims) == text::decimal(jwt::hex_nat(s)),
        jwt::hex_id(JsonV::Str("0x"@ + s)) == jwt::hex_id(JsonV::Str(s)),
        s.len() > 0 ==> jwt::hex_nat(s) == jwt::hex_nat(s.drop_last()) * 16 + jwt::hex_digit_of(
            s.last(),
        ).unwrap(),
{
    reveal_strlit("0x");
    reveal_strlit("0X");
    assert(!text::is_space(s[0]) && !text::is_space(s[s.len() - 1]));
    text::lemma_trimmed(s);
    assert(text::trimmed(s) == s);
    reveal_with_fuel(jwt::first_hex_id, 2);
    if "0x"@.is_prefix_of(s) {
        assert(s.subrange(0, 2)[1] == 'x');
        assert(jwt::hex_digit_of(s[1]) is Some);
    }
    if "0X"@.is_prefix_of(s) {
        assert(s.subrange(0, 2)[1] == 'X');
        assert(jwt::hex_digit_of(s[1]) is Some);
    }
    assert(jwt::unmarked(s) == s);
    let marked = "0x"@ + s;
    assert(marked.last() == s.last());
    text::lemma_trimmed(marked);
    assert(text::trimmed(marked) == marked);
    assert("0x"@ =~= marked.subrange(0, 2));
    assert(marked.skip(2) =~= s);
    assert(seq!["sid", "iss"][0]@ == "sid"@);
}

/// The login of the desktop client is looked for where its own setting says, else
/// where the common one says, else below the user's home.
pub proof fn the_desktop_login_is_looked_for(
    own: Option<Seq<char>>,
    common: Option<Seq<char>>,
    dir: Seq<char>,
    home: Seq<char>,
    separator: char,
)
    requires
        text::trimmed(dir) == dir,
        dir.len() > 0,
    ensures
        credentials::config_dir(Some(dir), common, home, separator)
            == dir,
        credentials::config_dir(None, Some(dir), home, separator)
            == dir,
        home.is_prefix_of(
            credentials::config_dir(None, None, home, separator),
        ),
        "config"@.is_suffix_of(
            credentials::config_dir(None, None, home, separator),
        ),
{
    let whole = credentials::config_dir(None, None, home, separator);
    let name = "config"@;
    assert(whole.subrange(0, home.len() as int) =~= home);
    assert(whole.subrange(whole.len() - name.len(), whole.len() as int) =~= name);
}

/// Where the desktop client's login cannot be read the reason is told, and the user is
/// asked to log in.
pub proof fn missing_desktop_logins_are_told(reason: Seq<char>)
    ensures
        credentials::desktop_outcome(
            Err::<JsonV, Seq<char>>(reason),
        ) matches Err(e) && e.status == 401 && reason.is_suffix_of(e.message),
{
    let whole = "没有可用的小浣熊登录态："@ + reason;
    assert(whole.subrange(whole.len() - reason.len(), whole.len() as int) =~= reason);
}

} // verus!
