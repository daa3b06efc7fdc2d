//! What an upstream says of an error is what the client reads.
use super::request;
use super::request::error_in;
use crate::json::JsonV;
use vstd::prelude::*;
use vstd::string::*;

verus! {

/// An error is told in the upstream's words, by the first of three entries that
/// holds any, with its code; where it holds none the start of the answer is told.
pub proof fn upstream_words_are_told(content: Seq<char>, payload: JsonV, s: Seq<char>, n: int)
    requires
        s.len() > 0,
        i64::MIN <= n <= i64::MAX,
    ensures
        ({
            let detail = error_in(content, Some(payload));
            let start = if content.len() <= 500 {
                content
            } else {
                content.take(500)
            };
            &&& payload.get("code"@) == Some(JsonV::Int(n)) ==> detail.code == Some(n)
            &&& payload.get("code"@) is None ==> detail.code is None
            &&& payload.get("message"@) == Some(JsonV::Str(s)) ==> detail.message == s
            &&& payload.get("message"@) is None && payload.get("msg"@) == Some(JsonV::Str(s))
                ==> detail.message == s
            &&& payload.get("message"@) is None && payload.get("msg"@) is None && payload.at(
                "error"@,
                "message"@,
            ) == Some(JsonV::Str(s)) ==> detail.message == s
            &&& payload.get("message"@) is None && payload.get("msg"@) is None && payload.get(
                "error"@,
            ) is None ==> detail.message == start
            &&& error_in(content, None).message == start
            &&& error_in(content, None).code is None
        }),
{
}

/// A failure says which way the request went: by the name of the proxy, else by
/// its host, else directly.
pub proof fn the_way_is_told(label: Seq<char>, host: Seq<char>)
    ensures
        label.len() > 0 ==> label.is_suffix_of(request::via(Some((label, host)))),
        label.len() == 0 ==> host.is_suffix_of(request::via(Some((label, host)))),
        request::via(Some((label, host))) != request::via(None),
{
    reveal_strlit("经代理 ");
    reveal_strlit("直连");
    let told = request::via(Some((label, host)));
    let end = if label.len() > 0 {
        label
    } else {
        host
    };
    assert(told.subrange(told.len() - end.len(), told.len() as int) =~= end);
    assert(told[0] == '经');
    assert("直连"@[0] == '直');
}

} // verus!
