//! Reading and writing URLs.
use crate::json;
use crate::text;
use vstd::prelude::*;
use vstd::string::*;
use vstd::utf8::*;

verus! {

/// What a list of pairs of texts means.
pub open spec fn pairs_view(pairs: Seq<(String, String)>) -> Seq<(Seq<char>, Seq<char>)> {
    pairs.map_values(|pair: (String, String)| (pair.0@, pair.1@))
}

/// What a list of pairs means after one more.
pub broadcast proof fn lemma_pairs_push(pairs: Seq<(String, String)>, pair: (String, String))
    ensures
        #[trigger] pairs_view(pairs.push(pair)) == pairs_view(pairs).push((pair.0@, pair.1@)),
{
    assert(pairs_view(pairs.push(pair)) =~= pairs_view(pairs).push((pair.0@, pair.1@)));
}

/// Appends a pair of texts.
pub fn push_pair(pairs: &mut Vec<(String, String)>, name: &str, value: &str)
    ensures
        pairs_view(final(pairs)@) == pairs_view(old(pairs)@).push((name@, value@)),
{
    let pair = (text::owned(name), text::owned(value));
    proof {
        lemma_pairs_push(pairs@, pair);
    }
    pairs.push(pair);
}

/// No pairs of texts.
pub fn no_pairs() -> (pairs: Vec<(String, String)>)
    ensures
        pairs_view(pairs@) == Seq::<(Seq<char>, Seq<char>)>::empty(),
{
    let pairs: Vec<(String, String)> = Vec::new();
    assert(pairs_view(pairs@) =~= Seq::empty());
    pairs
}

/// The parts of a URL.
#[derive(Debug)]
pub struct UrlParts {
    pub scheme: String,
    pub host: Option<String>,
    pub path: String,
    /// The pairs of the query, decoded.
    pub query: Vec<(String, String)>,
}

/// What the parts of a URL mean.
pub ghost struct UrlV {
    pub scheme: Seq<char>,
    pub host: Option<Seq<char>>,
    pub path: Seq<char>,
    pub query: Seq<(Seq<char>, Seq<char>)>,
}

impl View for UrlParts {
    type V = UrlV;

    open spec fn view(&self) -> UrlV {
        UrlV {
            scheme: self.scheme@,
            host: json::owned_text(self.host),
            path: self.path@,
            query: pairs_view(self.query@),
        }
    }
}

/// The parts of the URL that a text writes.
pub uninterp spec fn parsed_url(text: Seq<char>) -> Option<UrlV>;

/// `url::Url::parse` and the readers `scheme`, `host_str`, `path` and
/// `query_pairs`: the parts, or nothing where the text is no absolute URL. They
/// depend on the text alone.
#[verifier::external_body]
pub(crate) fn parse_url(source: &str) -> (parts: Option<UrlParts>)
    ensures
        match parts {
            Some(p) => parsed_url(source@) == Some(p@),
            None => parsed_url(source@) is None,
        },
{
    url::Url::parse(source).ok().map(|url| UrlParts {
        scheme: url.scheme().to_string(),
        host: url.host_str().map(str::to_string),
        path: url.path().to_string(),
        query: url.query_pairs().into_owned().collect(),
    })
}

/// Whether a text is a host that a URL keeps as it is: words of small letters with
/// dots between them.
pub open spec fn is_plain_host(host: Seq<char>) -> bool {
    &&& host.len() > 0
    &&& host[0] != '.'
    &&& host.last() != '.'
    &&& forall|i: int| 0 <= i < host.len() ==> 'a' <= #[trigger] host[i] <= 'z' || (host[i] == '.'
        && host[i + 1] != '.')
}

/// Whether a text is a path that a URL keeps as it is: words of letters and digits
/// behind strokes.
pub open spec fn is_plain_path(path: Seq<char>) -> bool {
    &&& path.len() > 0
    &&& path[0] == '/'
    &&& forall|i: int|
        0 <= i < path.len() ==> 'a' <= #[trigger] path[i] <= 'z' || 'A' <= path[i] <= 'Z' || '0'
            <= path[i] <= '9' || path[i] == '/'
}

/// Whether a text is an address that a URL keeps as it is, without a query.
pub open spec fn is_plain_address(s: Seq<char>) -> bool {
    let rest = s.skip(8);
    let at = text::place_of(rest, '/');
    &&& "https://"@.is_prefix_of(s)
    &&& s.len() <= 1000
    &&& is_plain_host(rest.take(at))
    &&& is_plain_path(rest.skip(at))
}

/// A digit of a byte that is escaped.
pub open spec fn escape_digit(n: int) -> char {
    if n < 10 {
        (('0' as u32) + n) as char
    } else {
        (('A' as u32) + (n - 10)) as char
    }
}

/// A byte of a query: letters, digits and four signs stay, a space becomes a plus,
/// and any other is escaped.
pub open spec fn query_byte(b: u8) -> Seq<char> {
    if 0x61 <= b <= 0x7a || 0x41 <= b <= 0x5a || 0x30 <= b <= 0x39 || b == 0x2a || b == 0x2d || b
        == 0x2e || b == 0x5f {
        seq![b as char]
    } else if b == 0x20 {
        seq!['+']
    } else {
        seq!['%', escape_digit(b as int / 16), escape_digit(b as int % 16)]
    }
}

/// Bytes as a query writes them.
pub open spec fn query_bytes(bytes: Seq<u8>) -> Seq<char>
    decreases bytes.len(),
{
    if bytes.len() == 0 {
        Seq::empty()
    } else {
        query_bytes(bytes.drop_last()) + query_byte(bytes.last())
    }
}

/// Pairs as a query writes them.
pub open spec fn query_text(pairs: Seq<(Seq<char>, Seq<char>)>) -> Seq<char>
    decreases pairs.len(),
{
    if pairs.len() == 0 {
        Seq::empty()
    } else {
        let pair = query_bytes(encode_utf8(pairs.last().0)) + "="@ + query_bytes(
            encode_utf8(pairs.last().1),
        );
        if pairs.len() == 1 {
            pair
        } else {
            query_text(pairs.drop_last()) + "&"@ + pair
        }
    }
}

/// What comes of a base and of pairs appended to its query.
pub uninterp spec fn appended_url(
    base: Seq<char>,
    pairs: Seq<(Seq<char>, Seq<char>)>,
) -> Option<Seq<char>>;

/// `url::Url::parse`, `query_pairs_mut` and `extend_pairs`: the URL with the
/// pairs appended, encoded, or nothing where the base is no absolute URL. It
/// depends on the base and the pairs alone. A plain address is a URL that stays as
/// it is, and the pairs follow a question mark.
#[verifier::external_body]
fn append_query(base: &str, pairs: &Vec<(String, String)>) -> (whole: Option<String>)
    ensures
        json::owned_text(whole) == appended_url(base@, pairs_view(pairs@)),
        is_plain_address(base@) ==> json::owned_text(whole) == Some(
            base@ + "?"@ + query_text(pairs_view(pairs@)),
        ),
{
    let mut url = url::Url::parse(base).ok()?;
    url.query_pairs_mut().extend_pairs(pairs);
    Some(url.to_string())
}

/// A URL with pairs appended to its query: that of a plain address is known, and
/// that of another has a name.
#[verifier::opaque]
pub open spec fn url_with_query(base: Seq<char>, pairs: Seq<(Seq<char>, Seq<char>)>) -> Option<
    Seq<char>,
> {
    if is_plain_address(base) {
        Some(base + "?"@ + query_text(pairs))
    } else {
        appended_url(base, pairs)
    }
}

/// A URL with pairs appended to its query.
pub fn with_query(base: &str, pairs: &Vec<(String, String)>) -> (whole: Option<String>)
    ensures
        json::owned_text(whole) == url_with_query(base@, pairs_view(pairs@)),
{
    proof {
        reveal(url_with_query);
    }
    append_query(base, pairs)
}

/// A plain address takes any pairs.
pub proof fn plain_addresses_take_queries(base: Seq<char>, pairs: Seq<(Seq<char>, Seq<char>)>)
    requires
        is_plain_address(base),
    ensures
        url_with_query(base, pairs) == Some(base + "?"@ + query_text(pairs)),
{
    reveal(url_with_query);
}

/// An address is plain where its host and its path are.
pub proof fn lemma_plain_address(base: Seq<char>, host: Seq<char>, path: Seq<char>)
    requires
        base == "https://"@ + host + path,
        base.len() <= 1000,
        is_plain_host(host),
        is_plain_path(path),
    ensures
        is_plain_address(base),
{
    reveal_strlit("https://");
    let rest = base.skip(8);
    assert(rest =~= host + path);
    text::lemma_place_is(rest, '/', host.len() as int);
    assert(rest.take(host.len() as int) =~= host);
    assert(rest.skip(host.len() as int) =~= path);
    assert("https://"@ =~= base.subrange(0, 8));
}

/// A URL with another path and with pairs appended to its query.
pub uninterp spec fn url_at_path(
    base: Seq<char>,
    path: Seq<char>,
    pairs: Seq<(Seq<char>, Seq<char>)>,
) -> Option<Seq<char>>;

/// `url::Url::parse`, `set_path`, `query_pairs_mut` and `extend_pairs`: the URL
/// with this path and the pairs appended, encoded, or nothing where the base is no
/// absolute URL. It depends on the base, the path and the pairs alone.
#[verifier::external_body]
pub(crate) fn at_path(base: &str, path: &str, pairs: &Vec<(String, String)>) -> (whole: Option<
    String,
>)
    ensures
        json::owned_text(whole) == url_at_path(base@, path@, pairs_view(pairs@)),
{
    let mut url = url::Url::parse(base).ok()?;
    url.set_path(path);
    url.query_pairs_mut().extend_pairs(pairs);
    Some(url.to_string())
}

/// The value of the first pair of a name, without white space around it; empty
/// where there is none.
pub open spec fn first_value(pairs: Seq<(Seq<char>, Seq<char>)>, name: Seq<char>) -> Seq<char>
    decreases pairs.len(),
{
    if pairs.len() == 0 {
        Seq::empty()
    } else if pairs[0].0 == name {
        text::trimmed(pairs[0].1)
    } else {
        first_value(pairs.skip(1), name)
    }
}

/// The value of the first pair of a name, without white space around it; empty
/// where there is none.
pub fn find_value(pairs: &Vec<(String, String)>, name: &str) -> (value: String)
    ensures
        value@ == first_value(pairs_view(pairs@), name@),
{
    let ghost all = pairs_view(pairs@);
    let mut i: usize = 0;
    assert(all.skip(0) =~= all);
    while i < pairs.len()
        invariant
            all == pairs_view(pairs@),
            i <= pairs.len(),
            first_value(all, name@) == first_value(all.skip(i as int), name@),
        decreases pairs.len() - i,
    {
        assert(all.skip(i as int)[0] == (pairs@[i as int].0@, pairs@[i as int].1@));
        assert(all.skip(i as int).skip(1) =~= all.skip(i as int + 1));
        if text::same(pairs[i].0.as_str(), name) {
            return text::owned(text::trim(pairs[i].1.as_str()));
        }
        i += 1;
    }
    String::new()
}

} // verus!
