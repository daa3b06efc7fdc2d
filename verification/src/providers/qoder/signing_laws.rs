//! How a request to Qoder is signed and sealed, and how its stream is brought to an
//! end: what is signed is what is sent, and what was said is handed out.
use super::chat;
use super::chat::TranslatorV;
use super::cosy;
use super::cosy::{FreshV, IdentityV};
use super::credentials::CredentialsV;
use super::endpoints::Region;
use super::models;
use super::models::CatalogV;
use super::piping;
use super::piping::{DriveV, EndingV};
use super::stream::EventV;
use crate::digest;
use crate::json;
use crate::json::JsonV;
use crate::text;
use vstd::prelude::*;
use vstd::string::*;

verus! {

/// Where the headers stand.
proof fn lemma_places(
    body: Seq<u8>,
    path: Seq<char>,
    identity: IdentityV,
    fresh: FreshV,
)
    ensures
        ({
            let headers = cosy::signed_headers(body, path, identity, fresh);
            &&& headers.len() == 19
            &&& headers[0] == (
                "Authorization"@,
                "Bearer COSY."@ + cosy::payload_text(identity, fresh) + "."@ + cosy::signature_text(
                    cosy::payload_text(identity, fresh),
                    fresh.cosy_key,
                    text::decimal(fresh.now_ms / 1000),
                    body,
                    path,
                ),
            )
            &&& headers[1] == ("Cosy-Key"@, fresh.cosy_key)
            &&& headers[2] == ("Cosy-User"@, identity.user_id)
            &&& headers[3] == ("Cosy-Date"@, text::decimal(fresh.now_ms / 1000))
            &&& headers[5] == ("Cosy-Machineid"@, identity.machine_id)
            &&& headers[6] == ("Cosy-Machinetoken"@, identity.machine_id)
            &&& headers[8] == ("Cosy-Machineos"@, fresh.machine_os)
            &&& headers[11] == ("Cosy-Bodyhash"@, digest::hex_of(digest::md5_of(body)))
            &&& headers[12] == ("Cosy-Bodylength"@, text::decimal(body.len()))
            &&& headers[13] == ("Cosy-Sigpath"@, path)
            &&& headers[18] == ("X-Request-Id"@, fresh.request_id)
        }),
{
    reveal(cosy::signed_headers);
}

/// The headers of a request name the user and the machine it is from, the time, the
/// path and the body that it is signed for.
pub proof fn headers_tell_what_is_sent(
    body: Seq<u8>,
    path: Seq<char>,
    identity: IdentityV,
    fresh: FreshV,
)
    ensures
        ({
            let headers = cosy::signed_headers(body, path, identity, fresh);
            &&& headers.contains(("Cosy-Key"@, fresh.cosy_key))
            &&& headers.contains(("Cosy-User"@, identity.user_id))
            &&& headers.contains(("Cosy-Date"@, text::decimal(fresh.now_ms / 1000)))
            &&& headers.contains(("Cosy-Machineid"@, identity.machine_id))
            &&& headers.contains(("Cosy-Machinetoken"@, identity.machine_id))
            &&& headers.contains(("Cosy-Machineos"@, fresh.machine_os))
            &&& headers.contains(("Cosy-Bodyhash"@, digest::hex_of(digest::md5_of(body))))
            &&& headers.contains(("Cosy-Bodylength"@, text::decimal(body.len())))
            &&& headers.contains(("Cosy-Sigpath"@, path))
            &&& headers.contains(("X-Request-Id"@, fresh.request_id))
            &&& headers.len() > 0 && headers[0].0 == "Authorization"@
            &&& "Bearer COSY."@.is_prefix_of(headers[0].1)
            &&& text::has_part(headers[0].1, cosy::payload_text(identity, fresh))
            &&& cosy::signature_text(
                cosy::payload_text(identity, fresh),
                fresh.cosy_key,
                text::decimal(fresh.now_ms / 1000),
                body,
                path,
            ).is_suffix_of(headers[0].1)
        }),
{
    lemma_places(body, path, identity, fresh);
    let payload = cosy::payload_text(identity, fresh);
    let lead = "Bearer COSY."@;
    let signature = cosy::signature_text(
        payload,
        fresh.cosy_key,
        text::decimal(fresh.now_ms / 1000),
        body,
        path,
    );
    let whole = lead + payload + "."@ + signature;
    assert(whole =~= lead + payload + ("."@ + signature));
    text::lemma_has_part(lead, payload, "."@ + signature);
    assert(whole.subrange(0, lead.len() as int) =~= lead);
    assert(whole.subrange(whole.len() - signature.len(), whole.len() as int) =~= signature);
}

/// The path is signed without the name of the service in front.
pub proof fn paths_are_signed(rest: Seq<char>, path: Seq<char>)
    ensures
        cosy::path_to_sign("/algo"@ + rest) == rest,
        !"/algo"@.is_prefix_of(path) ==> cosy::path_to_sign(path) == path,
{
    let whole = "/algo"@ + rest;
    assert(whole.subrange(0, "/algo"@.len() as int) =~= "/algo"@);
    assert(whole.skip("/algo"@.len() as int) =~= rest);
}

/// A request is signed in the name and with the token of the account it is for.
pub proof fn accounts_sign_for_themselves(credentials: CredentialsV)
    ensures
        ({
            let own = cosy::identity_of(credentials);
            let told = cosy::identity_text(own);
            &&& own.user_id == credentials.user_id
            &&& own.auth_token == credentials.access_token
            &&& own.machine_id == credentials.machine_id
            &&& text::has_part(told, json::json_text(JsonV::Str(credentials.access_token)))
            &&& text::has_part(told, json::json_text(JsonV::Str(credentials.user_id)))
            &&& text::has_part(told, json::json_text(JsonV::Str(credentials.name)))
            &&& text::has_part(told, json::json_text(JsonV::Str(credentials.email)))
        }),
{
    let own = cosy::identity_of(credentials);
    let told = cosy::identity_text(own);
    let user = json::json_text(JsonV::Str(credentials.user_id));
    let token = json::json_text(JsonV::Str(credentials.access_token));
    let name = json::json_text(JsonV::Str(credentials.name));
    let email = json::json_text(JsonV::Str(credentials.email));
    let (a, b) = ("{\"uid\":"@, ",\"security_oauth_token\":"@);
    let (c, d, e) = (",\"name\":"@, ",\"aid\":\"\",\"email\":"@, "}"@);
    assert(told =~= a + user + (b + token + c + name + d + email + e));
    text::lemma_has_part(a, user, b + token + c + name + d + email + e);
    assert(told =~= (a + user + b) + token + (c + name + d + email + e));
    text::lemma_has_part(a + user + b, token, c + name + d + email + e);
    assert(told =~= (a + user + b + token + c) + name + (d + email + e));
    text::lemma_has_part(a + user + b + token + c, name, d + email + e);
    assert(told =~= (a + user + b + token + c + name + d) + email + e);
    text::lemma_has_part(a + user + b + token + c + name + d, email, e);
}

/// What is enciphered is filled up to whole blocks, and the last byte tells by how
/// much, so that the filling can be taken off again.
pub proof fn fillings_can_be_taken_off(data: Seq<u8>)
    ensures
        ({
            let whole = cosy::padded(data);
            &&& whole.len() % 16 == 0 && whole.len() > data.len()
            &&& whole.take(whole.len() - whole.last()) == data
        }),
{
    let whole = cosy::padded(data);
    assert(whole.take(data.len() as int) =~= data);
}

/// Mixing a block in twice takes it out again.
pub proof fn mixing_undoes_itself(a: Seq<u8>, b: Seq<u8>)
    requires
        a.len() == 16,
        b.len() == 16,
    ensures
        cosy::mixed(cosy::mixed(a, b), b) == a,
{
    assert forall|i: int| 0 <= i < 16 implies #[trigger] cosy::mixed(cosy::mixed(a, b), b)[i]
        == a[i] by {
        let (x, y) = (a[i], b[i]);
        assert((x ^ y) ^ y == x) by (bit_vector);
    }
    assert(cosy::mixed(cosy::mixed(a, b), b) =~= a);
}

/// A sealed message ends with the message, behind a filling without a zero.
pub proof fn messages_are_sealed(filler: Seq<u8>, message: Seq<u8>)
    ensures
        ({
            let block = cosy::rsa_block(filler, message);
            let mark = filler.len() as int + 2;
            &&& block.len() == filler.len() + message.len() + 3
            &&& block[0] == 0 && block[1] == 2 && block[mark] == 0
            &&& forall|i: int| 2 <= i < mark ==> #[trigger] block[i] != 0
            &&& forall|i: int|
                2 <= i < mark && filler[i - 2] != 0 ==> #[trigger] block[i] == filler[i - 2]
            &&& block.skip(mark + 1) == message
        }),
{
    let block = cosy::rsa_block(filler, message);
    assert(block.skip(filler.len() as int + 3) =~= message);
}

/// A request for an answer names the model, and goes to the service of the account's
/// region; so does one for the list of models.
pub proof fn requests_go_to_the_region(credentials: CredentialsV, key: Seq<char>)
    ensures
        credentials.region.spec_gateway().is_prefix_of(chat::chat_url(credentials)),
        credentials.region.spec_gateway().is_prefix_of(models::list_url(credentials.region)),
        chat::plain_headers(key).contains(("X-Model-Key"@, key)),
        chat::plain_headers(key).contains(("Accept"@, "text/event-stream"@)),
        Region::Global.spec_gateway() != Region::Cn.spec_gateway(),
        Region::Global.spec_center() != Region::Cn.spec_center(),
        Region::Cn.spec_center() + "/"@ == Region::Cn.spec_gateway(),
{
    let home = credentials.region.spec_gateway();
    let one = chat::chat_url(credentials);
    let two = models::list_url(credentials.region);
    assert(one.subrange(0, home.len() as int) =~= home);
    assert(two.subrange(0, home.len() as int) =~= home);
    assert(chat::plain_headers(key)[4] == ("X-Model-Key"@, key));
    assert(chat::plain_headers(key)[1].0 == "Accept"@);
    reveal_strlit("https://api3.qoder.sh/");
    reveal_strlit("https://gateway.qoder.com.cn/");
    reveal_strlit("https://gateway.qoder.com.cn");
    reveal_strlit("https://center.qoder.sh");
    reveal_strlit("/");
    assert("https://gateway.qoder.com.cn"@ + "/"@ =~= "https://gateway.qoder.com.cn/"@);
}

/// The list of models is asked for where there is none, where it is old and where it
/// is wanted anew, and not while it is fresh.
pub proof fn old_lists_are_renewed(state: CatalogV, region: Region, now: int)
    ensures
        models::refresh_due(state, region, true, now),
        state.fetched(region).len() == 0 ==> models::refresh_due(state, region, false, now),
        state.fetched(region).len() > 0 && now == state.fetched_at(region)
            ==> !models::refresh_due(state, region, false, now),
        models::refresh_due(state, region, false, now) ==> models::refresh_due(
            state,
            region,
            false,
            now + 1,
        ),
{
}

/// A stream that is over ends with the mark of the end, and one that failed tells why
/// right before it.
pub proof fn ends_are_marked(
    drive: DriveV,
    tail: Seq<u8>,
    catalog: CatalogV,
    translator: TranslatorV,
    held: Seq<u8>,
    reason: Seq<char>,
)
    ensures
        ({
            let (end, step) = piping::settle(drive, tail, catalog);
            &&& step.over && step.frames == end.frames
            &&& step.frames.len() > 0 && step.frames.last() == "data: [DONE]\n\n"@
            &&& step.failed is None ==> step.limited is None
            &&& drive.ending matches EndingV::Failed(EventV::Error { error, .. })
                ==> step.failed is Some
            &&& drive.frames.is_prefix_of(step.frames)
        }),
        ({
            let (end, step) = piping::end_step(translator, held, catalog);
            step.over && step.frames.last() == "data: [DONE]\n\n"@
        }),
        ({
            let (end, step) = piping::broken_step(translator, reason);
            &&& step.over && step.limited is None
            &&& step.failed matches Some(message)
            &&& reason.is_suffix_of(message)
            &&& step.frames.last() == "data: [DONE]\n\n"@
        }),
{
}

} // verus!
