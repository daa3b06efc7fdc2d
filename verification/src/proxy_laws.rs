//! Which way a request goes: the proxy that is used is the one that was set, and the
//! interface shows the same.
use crate::json::JsonV;
use crate::proxies;
use crate::proxies::{
    clash_resolved, custom_form, description, is_port, listener_of, normalized, port_value,
    resolves_to, ClashV, ListenerV, ProxyV, ResolutionV, CLASH_MIXED_UID,
};
use crate::text;
use crate::update::client;
use vstd::prelude::*;
use vstd::string::*;

verus! {

/// The words tell one another apart.
proof fn lemma_words()
    ensures
        "host"@.len() == 4,
        "http"@.len() == 4,
        "port"@.len() == 4,
        "host"@[0] == 'h',
        "host"@[1] == 'o',
        "http"@[0] == 'h',
        "http"@[1] == 't',
        "port"@[0] == 'p',
        "port"@[1] == 'o',
        "clash"@.len() == 5,
        "error"@.len() == 5,
        "label"@.len() == 5,
        "clash"@[0] == 'c',
        "error"@[0] == 'e',
        "label"@[0] == 'l',
        "config"@.len() == 6,
        "custom"@.len() == 6,
        "socks5"@.len() == 6,
        "source"@.len() == 6,
        "config"@[0] == 'c',
        "config"@[1] == 'o',
        "config"@[2] == 'n',
        "custom"@[0] == 'c',
        "custom"@[1] == 'u',
        "custom"@[2] == 's',
        "socks5"@[0] == 's',
        "socks5"@[1] == 'o',
        "socks5"@[2] == 'c',
        "source"@[0] == 's',
        "source"@[1] == 'o',
        "source"@[2] == 'u',
        "password"@.len() == 8,
        "protocol"@.len() == 8,
        "username"@.len() == 8,
        "password"@[0] == 'p',
        "password"@[1] == 'a',
        "protocol"@[0] == 'p',
        "protocol"@[1] == 'r',
        "username"@[0] == 'u',
        "username"@[1] == 's',
        "listenerUid"@.len() == 11,
{
    reveal_strlit("host");
    reveal_strlit("http");
    reveal_strlit("port");
    reveal_strlit("clash");
    reveal_strlit("error");
    reveal_strlit("label");
    reveal_strlit("config");
    reveal_strlit("custom");
    reveal_strlit("socks5");
    reveal_strlit("source");
    reveal_strlit("password");
    reveal_strlit("protocol");
    reveal_strlit("username");
    reveal_strlit("listenerUid");
}

/// A proxy of one's own is kept as it was entered: its host, its port, its login and
/// its label, without blanks around them.
pub proof fn entered_proxies_are_kept(input: JsonV, port: int, s: Seq<char>)
    requires
        text::trimmed(s) == s,
        0 < s.len() <= 100,
    ensures
        ({
            let form = custom_form(input, port);
            &&& form.get("source"@) == Some(JsonV::Str("custom"@))
            &&& form.get("port"@) == Some(JsonV::Int(port))
            &&& input.get("host"@) == Some(JsonV::Str(s)) ==> form.get("host"@) == Some(
                JsonV::Str(s),
            )
            &&& input.get("username"@) == Some(JsonV::Str(s)) ==> form.get("username"@) == Some(
                JsonV::Str(s),
            )
            &&& input.get("password"@) == Some(JsonV::Str(s)) ==> form.get("password"@) == Some(
                JsonV::Str(s),
            )
            &&& input.get("label"@) == Some(JsonV::Str(s)) ==> form.get("label"@) == Some(
                JsonV::Str(s),
            )
            &&& form.get("protocol"@) == Some(JsonV::Str(proxies::protocol_of(input)))
            &&& input.get("protocol"@) is None ==> form.get("protocol"@) == Some(
                JsonV::Str("http"@),
            )
            &&& input.get("username"@) is None ==> form.get("username"@) == Some(
                JsonV::Str(Seq::empty()),
            )
        }),
{
    lemma_words();
    assert(proxies::cleaned(JsonV::Str(s), 100) == s);
    reveal(text::lowercase);
    let none = Seq::<char>::empty();
    assert(text::ascii_lowercase(none) =~= none);
    assert(vstd::utf8::is_ascii_chars(none));
}

/// A proxy of one's own is used as it is kept.
pub proof fn kept_proxies_are_used(config: JsonV, clash: ClashV, proxy: ProxyV, s: Seq<char>, n: int)
    requires
        config.get("source"@) == Some(JsonV::Str("custom"@)),
        resolves_to(Some(config), clash, Some(ResolutionV::Resolved(proxy))),
    ensures
        proxy.source == "custom"@,
        config.get("host"@) == Some(JsonV::Str(s)) ==> proxy.host == s,
        config.get("username"@) == Some(JsonV::Str(s)) ==> proxy.username == s,
        config.get("password"@) == Some(JsonV::Str(s)) ==> proxy.password == s,
        config.get("label"@) == Some(JsonV::Str(s)) && s.len() > 0 ==> proxy.label == s,
        config.get("protocol"@) == Some(JsonV::Str("socks5"@)) <==> proxy.protocol == "socks5"@,
        config.get("protocol"@) != Some(JsonV::Str("socks5"@)) ==> proxy.protocol == "http"@,
        1 <= n <= 65535 && config.get("port"@) == Some(JsonV::Int(n)) ==> proxy.port == Some(
            n as u16,
        ),
        config.get("username"@) is None ==> proxy.username == Seq::<char>::empty(),
{
    lemma_words();
    if 1 <= n <= 65535 && config.get("port"@) == Some(JsonV::Int(n)) {
        assert(is_port(config.field("port"@), n));
    }
}

/// Without a proxy that is set a request goes directly.
pub proof fn nothing_set_is_direct(clash: ClashV, outcome: Option<ResolutionV>)
    ensures
        resolves_to(None, clash, outcome) ==> outcome is None,
        resolves_to(Some(JsonV::Null), clash, outcome) ==> outcome is None,
        normalized(JsonV::Null, Ok(None)),
{
}

proof fn lemma_listener(listeners: Seq<ListenerV>, uid: Seq<char>)
    ensures
        match listener_of(listeners, uid) {
            Some(l) => l.uid == uid && listeners.contains(l),
            None => forall|i: int|
                0 <= i < listeners.len() ==> (#[trigger] listeners[i]).uid != uid,
        },
    decreases listeners.len(),
{
    if listeners.len() > 0 {
        if listeners[0].uid == uid {
            assert(listeners.contains(listeners[0]));
        } else {
            let rest = listeners.skip(1);
            lemma_listener(rest, uid);
            match listener_of(rest, uid) {
                Some(l) => {
                    let k = choose|k: int| 0 <= k < rest.len() && rest[k] == l;
                    assert(listeners[k + 1] == l);
                },
                None => {
                    assert forall|i: int| 0 <= i < listeners.len() implies (
                    #[trigger] listeners[i]).uid != uid by {
                        if i > 0 {
                            assert(rest[i - 1] == listeners[i]);
                        }
                    }
                },
            }
        }
    }
}

/// A proxy of the local client is the listener that was set, on its own port, while
/// it is there and on; the mixed port is used where that is what was set.
pub proof fn listeners_are_used(uid: Seq<char>, clash: ClashV, proxy: ProxyV, port: u16)
    ensures
        clash_resolved(uid, clash) == ResolutionV::Resolved(proxy) ==> {
            &&& clash.available
            &&& proxy.host == "127.0.0.1"@ && proxy.protocol == "http"@
            &&& proxy.source == "clash"@
            &&& uid == CLASH_MIXED_UID@ ==> proxy.port == clash.mixed_port
            &&& uid != CLASH_MIXED_UID@ ==> exists|i: int|
                0 <= i < clash.listeners.len() && (#[trigger] clash.listeners[i]).uid == uid
                    && clash.listeners[i].enabled && proxy.port == Some(clash.listeners[i].port)
        },
        clash.available && uid == CLASH_MIXED_UID@ && clash.mixed_port == Some(port) ==> (
        clash_resolved(uid, clash) matches ResolutionV::Resolved(p) && p.port == Some(port)),
        !clash.available ==> clash_resolved(uid, clash) is Failed,
        clash.available && uid != CLASH_MIXED_UID@ && (forall|i: int|
            0 <= i < clash.listeners.len() ==> (#[trigger] clash.listeners[i]).uid != uid)
            ==> clash_resolved(uid, clash) is Failed,
{
    lemma_listener(clash.listeners, uid);
    if clash_resolved(uid, clash) == ResolutionV::Resolved(proxy) && uid != CLASH_MIXED_UID@ {
        let l = listener_of(clash.listeners, uid).unwrap();
        let i = choose|i: int| 0 <= i < clash.listeners.len() && clash.listeners[i] == l;
        assert(clash.listeners[i].uid == uid);
    }
}

/// A listener that is set, on and known is used.
pub proof fn known_listeners_are_found(clash: ClashV, listener: ListenerV)
    requires
        clash.available,
        listener.uid != CLASH_MIXED_UID@,
        listener.enabled,
        clash.listeners == seq![listener],
    ensures
        clash_resolved(listener.uid, clash) matches ResolutionV::Resolved(proxy) && proxy.port
            == Some(listener.port) && text::has_part(proxy.label, listener.name),
{
    let none = Seq::<char>::empty();
    let end = "（:"@ + text::decimal(listener.port as nat) + "）"@;
    assert(listener.name + "（:"@ + text::decimal(listener.port as nat) + "）"@ =~= listener.name
        + end);
    text::lemma_has_part(none, listener.name, end);
}

/// What is shown of a proxy is what is used, without its password; why one cannot be
/// used is shown in its place.
pub proof fn shown_proxies_are_used(config: JsonV, proxy: ProxyV, message: Seq<char>)
    ensures
        ({
            let shown = description(config, ResolutionV::Resolved(proxy));
            &&& shown.get("source"@) == Some(JsonV::Str(proxy.source))
            &&& shown.get("protocol"@) == Some(JsonV::Str(proxy.protocol))
            &&& shown.get("host"@) == Some(JsonV::Str(proxy.host))
            &&& shown.get("port"@) == Some(port_value(proxy.port))
            &&& shown.get("label"@) == Some(JsonV::Str(proxy.label))
            &&& shown.get("error"@) == Some(JsonV::Null)
            &&& shown.get("config"@) == Some(config)
            &&& shown.get("password"@) is None
        }),
        ({
            let shown = description(config, ResolutionV::Failed(message));
            &&& shown.get("error"@) == Some(JsonV::Str(message))
            &&& shown.get("config"@) == Some(config)
            &&& shown.get("host"@) is None
        }),
        proxy.port matches Some(n) ==> port_value(proxy.port) == JsonV::Int(n as int),
{
    lemma_words();
}

/// Updates are looked for with the token that is set for them, else with the common
/// one, and by the local client where it is there.
pub proof fn updates_are_looked_for(
    own: Seq<char>,
    common: Option<Seq<char>>,
    clash: ClashV,
    port: u16,
    failures: Seq<Seq<char>>,
    ways: int,
)
    ensures
        text::trimmed(own).len() > 0 ==> client::token_of(Some(own), common) == Some(
            text::trimmed(own),
        ),
        client::token_of(None, Some(own)) == client::token_of(Some(own), None),
        client::headers_with(Some(own)).contains(("Authorization"@, "Bearer "@ + own)),
        client::headers_with(Some(own)).drop_last() == client::headers_with(None),
        clash.available && clash.mixed_port == Some(port) ==> {
            &&& client::ways_out(clash).len() == 2
            &&& client::ways_out(clash)[1].proxy matches Some(proxy)
            &&& proxy.port == Some(port)
            &&& client::ways_out(clash)[1].label == proxy.label
        },
        !clash.available ==> client::ways_out(clash).len() == 1,
        failures.len() < ways ==> client::step_after(failures, ways) == client::StepV::Try(
            failures.len() as int,
        ),
        failures.len() >= ways && failures.len() > 0 ==> (client::step_after(
            failures,
            ways,
        ) matches client::StepV::GiveUp(message) && failures.last().is_suffix_of(message)),
{
    let headers = client::headers_with(Some(own));
    assert(headers[3] == ("Authorization"@, "Bearer "@ + own));
    assert(headers.drop_last() =~= client::headers_with(None));
    if failures.len() > 0 {
        let whole = "无法连接 GitHub："@ + failures.last();
        assert(whole.subrange(whole.len() - failures.last().len(), whole.len() as int)
            =~= failures.last());
    }
}

/// The ways to look for updates are shown one for one, each under its label.
pub proof fn ways_are_shown(candidates: Seq<client::CandidateV>, shown: Seq<JsonV>, i: int)
    requires
        0 <= i < candidates.len(),
    ensures
        client::candidates_shown(candidates, shown).len() == candidates.len(),
        client::candidates_shown(candidates, shown)[i].get("label"@) == Some(
            JsonV::Str(candidates[i].label),
        ),
        client::candidates_shown(candidates, shown)[i].get("proxy"@) == Some(shown[i]),
{
    reveal_strlit("label");
    reveal_strlit("proxy");
    assert("label"@[0] == 'l' && "proxy"@[0] == 'p');
}

} // verus!
