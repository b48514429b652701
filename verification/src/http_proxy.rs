//! HTTP requests carried between a virtual machine and the host: the request and response
//! records, and the rules by which the agent's proxy turns what a program in the machine
//! sends into such a request, and the host turns an outcome into a response.
use vstd::prelude::*;
use crate::string_map::StringMap;
use crate::text::{chars_of, concat2, concat3, has_prefix, is_whitespace, unicode_whitespace, string_from_chars, starts_with};

verus! {

/// A request to be made by the host on behalf of a program in the virtual machine.
pub struct HttpProxyRequest {
    pub method: String,
    pub url: String,
    pub headers: StringMap<String>,
    pub body: Option<Vec<u8>>,
}

/// What came back, or why nothing did.
pub struct HttpProxyResponse {
    pub status_code: u16,
    pub headers: StringMap<String>,
    pub body: Vec<u8>,
    pub error: Option<String>,
}

/// The agent's client for requests that the host carries out.
pub struct VsockHttpClient {}

impl VsockHttpClient {
    /// A client; it holds no state.
    pub fn new() -> (c: Self) {
        VsockHttpClient {}
    }
}

/// What `str::to_lowercase` makes of a text.
pub uninterp spec fn lowercased(s: Seq<char>) -> Seq<char>;

/// `str::to_lowercase`. Trusted: the result is `lowercased` of the text.
#[verifier::external_body]
pub fn to_lowercase(s: &str) -> (r: String)
    ensures
        r@ == lowercased(s@),
{
    s.to_lowercase()
}

/// What `str::to_uppercase` makes of a text.
pub uninterp spec fn uppercased(s: Seq<char>) -> Seq<char>;

/// `str::to_uppercase`. Trusted: the result is `uppercased` of the text.
#[verifier::external_body]
pub fn to_uppercase(s: &str) -> (r: String)
    ensures
        r@ == uppercased(s@),
{
    s.to_uppercase()
}

/// The URL that the agent's proxy asks for: the request's own URL when it is absolute,
/// else `http://` with the `Host` header (or `localhost`) and the path and query (or `/`).
pub open spec fn spec_target_url(absolute: Option<String>, host: Option<String>, path_and_query: Option<String>) -> Seq<char> {
    match absolute {
        Some(u) => u@,
        None => "http://"@ + match host {
            Some(h) => h@,
            None => "localhost"@,
        } + match path_and_query {
            Some(p) => p@,
            None => "/"@,
        },
    }
}

/// The URL asked for is the request's own when it is absolute; otherwise it is an
/// `http://` URL that names the given host (or `localhost`) and ends with the given path and
/// query (or `/`).
pub proof fn lemma_target_url_parts(absolute: Option<String>, host: Option<String>, path_and_query: Option<String>)
    ensures
        absolute matches Some(u) ==> spec_target_url(absolute, host, path_and_query) == u@,
        absolute is None ==> {
            let url = spec_target_url(absolute, host, path_and_query);
            let h = match host {
                Some(h) => h@,
                None => "localhost"@,
            };
            let p = match path_and_query {
                Some(p) => p@,
                None => "/"@,
            };
            &&& has_prefix(url, "http://"@)
            &&& url.subrange(7, 7 + h.len() as int) == h
            &&& url.subrange(url.len() - p.len(), url.len() as int) == p
            &&& url.len() == 7 + h.len() + p.len()
        },
{
    reveal_strlit("http://");
    if absolute is None {
        let url = spec_target_url(absolute, host, path_and_query);
        let h = match host {
            Some(h) => h@,
            None => "localhost"@,
        };
        let p = match path_and_query {
            Some(p) => p@,
            None => "/"@,
        };
        assert(url == "http://"@ + h + p);
        assert(url.subrange(0, 7) =~= "http://"@);
        assert(url.subrange(7, 7 + h.len() as int) =~= h);
        assert(url.subrange(url.len() - p.len(), url.len() as int) =~= p);
    }
}

/// The URL that the agent's proxy asks for.
pub fn proxy_target_url(absolute: Option<String>, host: Option<String>, path_and_query: Option<String>) -> (r: String)
    ensures
        r@ == spec_target_url(absolute, host, path_and_query),
{
    match absolute {
        Some(u) => u,
        None => {
            let h = match host {
                Some(h) => h,
                None => String::from_str("localhost"),
            };
            let p = match path_and_query {
                Some(p) => p,
                None => String::from_str("/"),
            };
            concat3("http://", h.as_str(), p.as_str())
        },
    }
}

/// Whether a header is forwarded: its lower-cased name does not begin with `proxy-`, and
/// its value is text.
pub open spec fn forwarded(name: Seq<char>, value: Option<String>) -> bool {
    !has_prefix(lowercased(name), "proxy-"@) && value is Some
}

/// The headers of a request that the agent forwards to the host: those that `forwarded`
/// keeps, each name with its (last) value.
pub open spec fn spec_forwarded_headers(headers: Seq<(String, Option<String>)>) -> Map<Seq<char>, String>
    decreases headers.len(),
{
    if headers.len() == 0 {
        Map::empty()
    } else {
        let rest = spec_forwarded_headers(headers.drop_last());
        let (name, value) = headers.last();
        if forwarded(name@, value) {
            rest.insert(name@, value->0)
        } else {
            rest
        }
    }
}

/// The agent never forwards a proxy header: no forwarded name, lower-cased, begins with
/// `proxy-`, and each forwarded header is one of those given, with a text value.
pub proof fn lemma_no_proxy_headers_forwarded(headers: Seq<(String, Option<String>)>)
    ensures
        forall|k: Seq<char>|
            #[trigger] spec_forwarded_headers(headers).contains_key(k) ==> !has_prefix(lowercased(k), "proxy-"@)
                && exists|i: int| 0 <= i < headers.len() && (#[trigger] headers[i]).0@ == k && headers[i].1 is Some,
    decreases headers.len(),
{
    if headers.len() > 0 {
        let rest = headers.drop_last();
        lemma_no_proxy_headers_forwarded(rest);
        assert forall|k: Seq<char>| #[trigger] spec_forwarded_headers(headers).contains_key(k) implies !has_prefix(
            lowercased(k),
            "proxy-"@,
        ) && exists|i: int| 0 <= i < headers.len() && (#[trigger] headers[i]).0@ == k && headers[i].1 is Some by {
            let (name, value) = headers.last();
            if forwarded(name@, value) && k == name@ {
                assert(headers[headers.len() - 1].0@ == k);
            } else {
                assert(spec_forwarded_headers(rest).contains_key(k));
                let i = choose|i: int| 0 <= i < rest.len() && (#[trigger] rest[i]).0@ == k && rest[i].1 is Some;
                assert(headers[i] == rest[i]);
            }
        }
    }
}

/// Whether header `i` is the last forwarded one with its name.
pub open spec fn is_last_forwarded_of_its_name(headers: Seq<(String, Option<String>)>, i: int) -> bool {
    forall|j: int| i < j < headers.len() && #[trigger] headers[j].0@ == headers[i].0@ ==> !forwarded(headers[j].0@, headers[j].1)
}

/// Every other header is forwarded: a header whose lower-cased name does not begin with
/// `proxy-` and whose value is text is among the forwarded ones, with the value of the last
/// such header of that name.
pub proof fn lemma_other_headers_forwarded(headers: Seq<(String, Option<String>)>)
    ensures
        forall|i: int|
            0 <= i < headers.len() && forwarded(#[trigger] headers[i].0@, headers[i].1)
                ==> spec_forwarded_headers(headers).contains_key(headers[i].0@),
        forall|i: int|
            0 <= i < headers.len() && forwarded(headers[i].0@, headers[i].1) && #[trigger] is_last_forwarded_of_its_name(
                headers,
                i,
            ) ==> spec_forwarded_headers(headers)[headers[i].0@] == headers[i].1->0,
    decreases headers.len(),
{
    if headers.len() > 0 {
        let rest = headers.drop_last();
        let n = headers.len() - 1;
        lemma_other_headers_forwarded(rest);
        assert forall|i: int|
            0 <= i < headers.len() && forwarded(#[trigger] headers[i].0@, headers[i].1)
                implies spec_forwarded_headers(headers).contains_key(headers[i].0@) by {
            if i < n {
                assert(rest[i] == headers[i]);
            }
        }
        assert forall|i: int|
            0 <= i < headers.len() && forwarded(headers[i].0@, headers[i].1) && #[trigger] is_last_forwarded_of_its_name(
                headers,
                i,
            ) implies spec_forwarded_headers(headers)[headers[i].0@] == headers[i].1->0 by {
            if i < n {
                assert(rest[i] == headers[i]);
                assert(is_last_forwarded_of_its_name(rest, i)) by {
                    assert forall|j: int| i < j < rest.len() && #[trigger] rest[j].0@ == rest[i].0@ implies !forwarded(
                        rest[j].0@,
                        rest[j].1,
                    ) by {
                        assert(rest[j] == headers[j]);
                    }
                }
                if headers[n].0@ == headers[i].0@ {
                    assert(!forwarded(headers[n].0@, headers[n].1));
                }
            }
        }
    }
}

/// Collects the headers to forward; `headers` lists each header's name with its value
/// when the value is text.
pub fn forwarded_headers(headers: Vec<(String, Option<String>)>) -> (r: StringMap<String>)
    ensures
        r.wf(),
        r@ == spec_forwarded_headers(headers@),
{
    let mut out: StringMap<String> = StringMap::new();
    let mut i: usize = 0;
    while i < headers.len()
        invariant
            i <= headers@.len(),
            out.wf(),
            out@ == spec_forwarded_headers(headers@.subrange(0, i as int)),
        decreases headers@.len() - i,
    {
        proof {
            assert(headers@.subrange(0, i + 1).drop_last() =~= headers@.subrange(0, i as int));
            assert(headers@.subrange(0, i + 1).last() == headers@[i as int]);
        }
        let name = &headers[i].0;
        let lower = to_lowercase(name.as_str());
        if !starts_with(lower.as_str(), "proxy-") {
            match &headers[i].1 {
                Some(v) => {
                    out.insert(name.clone(), v.clone());
                },
                None => {},
            }
        }
        i = i + 1;
    }
    assert(headers@.subrange(0, headers@.len() as int) =~= headers@);
    out
}

/// The body to forward: none when it is empty.
pub fn request_body(bytes: Vec<u8>) -> (r: Option<Vec<u8>>)
    ensures
        bytes@.len() == 0 ==> r is None,
        bytes@.len() > 0 ==> r == Some(bytes),
{
    if bytes.len() == 0 {
        None
    } else {
        Some(bytes)
    }
}

/// The line that opens a tunnel through the host's proxy.
pub fn connect_line(target: &str) -> (r: String)
    ensures
        r@ == "CONNECT "@ + target@ + " HTTP/1.1\r\n\r\n"@,
{
    concat3("CONNECT ", target, " HTTP/1.1\r\n\r\n")
}

/// The agent's answer when the host's proxy could not be reached for a tunnel.
pub fn tunnel_failed_body() -> (r: String)
    ensures
        r@ == "Failed to connect to host proxy"@,
{
    String::from_str("Failed to connect to host proxy")
}

/// The agent's answer when the host could not carry out a request; `reason` is the error.
pub fn proxy_error_body(reason: &str) -> (r: String)
    ensures
        r@ == "Proxy error: "@ + reason@,
{
    concat2("Proxy error: ", reason)
}

/// How the agent's proxy answers a program.
pub enum AgentProxyReply {
    /// The host's answer is passed on with this status, its headers and its body.
    Relay { status: u16 },
    /// The answer has this status and body text.
    Plain { status: u16, body: String },
}

/// How the agent's proxy answers a request, from what the host gave back: the host's own
/// answer passed on with its status, or, when the host could not carry out the request,
/// 502 with "Proxy error: " and the reason.
pub fn agent_proxy_reply(outcome: &Result<u16, String>) -> (r: AgentProxyReply)
    ensures
        match outcome {
            Ok(status) => r == AgentProxyReply::Relay { status: *status },
            Err(reason) => r matches AgentProxyReply::Plain { status, body } && status == 502 && body@
                == "Proxy error: "@ + reason@,
        },
{
    match outcome {
        Ok(status) => AgentProxyReply::Relay { status: *status },
        Err(reason) => AgentProxyReply::Plain { status: 502, body: proxy_error_body(reason.as_str()) },
    }
}

/// How the agent's proxy answers a CONNECT request: 200 with an empty body once the host's
/// proxy is reached (the tunnel then carries the bytes), else 502 with
/// "Failed to connect to host proxy".
pub fn agent_tunnel_reply(host_reached: bool) -> (r: AgentProxyReply)
    ensures
        host_reached ==> (r matches AgentProxyReply::Plain { status, body } && status == 200 && body@
            == Seq::<char>::empty()),
        !host_reached ==> (r matches AgentProxyReply::Plain { status, body } && status == 502 && body@
            == "Failed to connect to host proxy"@),
{
    if host_reached {
        AgentProxyReply::Plain { status: 200, body: String::new() }
    } else {
        AgentProxyReply::Plain { status: 502, body: tunnel_failed_body() }
    }
}

/// The HTTP methods that the host's proxy makes requests with.
#[derive(Debug, Clone, Copy, PartialEq, Eq, Structural)]
pub enum ProxyMethod {
    Get,
    Post,
    Put,
    Delete,
    Head,
    Options,
    Patch,
}

impl ProxyMethod {
    /// The method's name as HTTP writes it.
    pub open spec fn spec_method_name(self) -> Seq<char> {
        match self {
            ProxyMethod::Get => "GET"@,
            ProxyMethod::Post => "POST"@,
            ProxyMethod::Put => "PUT"@,
            ProxyMethod::Delete => "DELETE"@,
            ProxyMethod::Head => "HEAD"@,
            ProxyMethod::Options => "OPTIONS"@,
            ProxyMethod::Patch => "PATCH"@,
        }
    }
}

/// Whether a text is the name of one of the methods.
pub open spec fn is_known_method_name(u: Seq<char>) -> bool {
    exists|m: ProxyMethod| #[trigger] m.spec_method_name() == u
}

/// The method of a request by its upper-cased name; anything unknown is GET.
pub open spec fn spec_proxy_method(name: Seq<char>) -> ProxyMethod {
    let u = uppercased(name);
    if u == "POST"@ {
        ProxyMethod::Post
    } else if u == "PUT"@ {
        ProxyMethod::Put
    } else if u == "DELETE"@ {
        ProxyMethod::Delete
    } else if u == "HEAD"@ {
        ProxyMethod::Head
    } else if u == "OPTIONS"@ {
        ProxyMethod::Options
    } else if u == "PATCH"@ {
        ProxyMethod::Patch
    } else {
        ProxyMethod::Get
    }
}

/// The method that the host uses for a proxied request.
pub fn proxy_method(name: &str) -> (m: ProxyMethod)
    ensures
        m == spec_proxy_method(name@),
        forall|k: ProxyMethod| #[trigger] k.spec_method_name() == uppercased(name@) ==> m == k,
        !is_known_method_name(uppercased(name@)) ==> m == ProxyMethod::Get,
{
    proof {
        lemma_proxy_method_by_name(name@, name@);
    }
    let u = to_uppercase(name);
    let t = u.as_str();
    if crate::mcp_http::same_text(t, "POST") {
        ProxyMethod::Post
    } else if crate::mcp_http::same_text(t, "PUT") {
        ProxyMethod::Put
    } else if crate::mcp_http::same_text(t, "DELETE") {
        ProxyMethod::Delete
    } else if crate::mcp_http::same_text(t, "HEAD") {
        ProxyMethod::Head
    } else if crate::mcp_http::same_text(t, "OPTIONS") {
        ProxyMethod::Options
    } else if crate::mcp_http::same_text(t, "PATCH") {
        ProxyMethod::Patch
    } else {
        ProxyMethod::Get
    }
}

/// The method used for a request is the one whose name is the request's method name in
/// upper case; a name that is no method's gives GET. So two names whose upper-cased forms
/// are different methods' names give different methods.
pub proof fn lemma_proxy_method_by_name(name: Seq<char>, other: Seq<char>)
    ensures
        forall|k: ProxyMethod| #[trigger] k.spec_method_name() == uppercased(name) ==> spec_proxy_method(name) == k,
        !is_known_method_name(uppercased(name)) ==> spec_proxy_method(name) == ProxyMethod::Get,
        is_known_method_name(uppercased(name)) ==> spec_proxy_method(name).spec_method_name() == uppercased(name),
        is_known_method_name(uppercased(name)) && is_known_method_name(uppercased(other)) && uppercased(name)
            != uppercased(other) ==> spec_proxy_method(name) != spec_proxy_method(other),
{
    lemma_method_names_distinct();
    assert forall|k: ProxyMethod| #[trigger] k.spec_method_name() == uppercased(name) implies spec_proxy_method(name) == k by {
        assert(ProxyMethod::Post.spec_method_name() == "POST"@);
        assert(ProxyMethod::Put.spec_method_name() == "PUT"@);
        assert(ProxyMethod::Delete.spec_method_name() == "DELETE"@);
        assert(ProxyMethod::Head.spec_method_name() == "HEAD"@);
        assert(ProxyMethod::Options.spec_method_name() == "OPTIONS"@);
        assert(ProxyMethod::Patch.spec_method_name() == "PATCH"@);
        assert(ProxyMethod::Get.spec_method_name() == "GET"@);
    }
    if !is_known_method_name(uppercased(name)) {
        assert(ProxyMethod::Post.spec_method_name() != uppercased(name));
        assert(ProxyMethod::Put.spec_method_name() != uppercased(name));
        assert(ProxyMethod::Delete.spec_method_name() != uppercased(name));
        assert(ProxyMethod::Head.spec_method_name() != uppercased(name));
        assert(ProxyMethod::Options.spec_method_name() != uppercased(name));
        assert(ProxyMethod::Patch.spec_method_name() != uppercased(name));
    }
}

/// Different methods have different names.
pub proof fn lemma_method_names_distinct()
    ensures
        forall|a: ProxyMethod, b: ProxyMethod| #[trigger] a.spec_method_name() == #[trigger] b.spec_method_name() ==> a == b,
{
    reveal_strlit("GET");
    reveal_strlit("POST");
    reveal_strlit("PUT");
    reveal_strlit("DELETE");
    reveal_strlit("HEAD");
    reveal_strlit("OPTIONS");
    reveal_strlit("PATCH");
    assert forall|a: ProxyMethod, b: ProxyMethod| #[trigger] a.spec_method_name() == #[trigger] b.spec_method_name() implies a == b by {
        let x = a.spec_method_name();
        let y = b.spec_method_name();
        if a != b {
            assert(x.len() != y.len() || x[0] != y[0] || x[1] != y[1]);
        }
    }
}

/// How the host's request went.
pub enum FetchOutcome {
    /// An answer came: status, headers and body.
    Fetched { status_code: u16, headers: StringMap<String>, body: Vec<u8> },
    /// The answer's body could not be read; the error's text.
    BodyFailed(String),
    /// The request failed; the error's text.
    RequestFailed(String),
}

/// The response that the host sends back for a request that went as `outcome` says:
/// what came, or status 500 with the error.
pub fn proxy_response(outcome: FetchOutcome) -> (r: HttpProxyResponse)
    ensures
        match outcome {
            FetchOutcome::Fetched { status_code, headers, body } => r.status_code == status_code
                && r.headers == headers && r.body == body && r.error is None,
            FetchOutcome::BodyFailed(e) => {
                &&& r.status_code == 500
                &&& r.headers@ == Map::<Seq<char>, String>::empty() && r.headers.wf()
                &&& r.body@ == Seq::<u8>::empty()
                &&& r.error matches Some(t) && t@ == "Failed to read response body: "@ + e@
            },
            FetchOutcome::RequestFailed(e) => {
                &&& r.status_code == 500
                &&& r.headers@ == Map::<Seq<char>, String>::empty() && r.headers.wf()
                &&& r.body@ == Seq::<u8>::empty()
                &&& r.error matches Some(t) && t@ == "HTTP request failed: "@ + e@
            },
        },
{
    match outcome {
        FetchOutcome::Fetched { status_code, headers, body } => HttpProxyResponse {
            status_code,
            headers,
            body,
            error: None,
        },
        FetchOutcome::BodyFailed(e) => HttpProxyResponse {
            status_code: 500,
            headers: StringMap::new(),
            body: Vec::new(),
            error: Some(concat2("Failed to read response body: ", e.as_str())),
        },
        FetchOutcome::RequestFailed(e) => HttpProxyResponse {
            status_code: 500,
            headers: StringMap::new(),
            body: Vec::new(),
            error: Some(concat2("HTTP request failed: ", e.as_str())),
        },
    }
}

/// Whether the first bytes from a program in the machine open a tunnel (`CONNECT `).
pub fn opens_tunnel(bytes: &[u8]) -> (b: bool)
    ensures
        b == (bytes@.len() >= 8 && bytes@.subrange(0, 8) == seq![67u8, 79u8, 78u8, 78u8, 69u8, 67u8, 84u8, 32u8]),
{
    if bytes.len() < 8 {
        return false;
    }
    let expected: [u8; 8] = [67u8, 79u8, 78u8, 78u8, 69u8, 67u8, 84u8, 32u8];
    let mut i: usize = 0;
    while i < 8
        invariant
            bytes@.len() >= 8,
            i <= 8,
            expected@ == seq![67u8, 79u8, 78u8, 78u8, 69u8, 67u8, 84u8, 32u8],
            forall|j: int| 0 <= j < i ==> bytes@[j] == expected@[j],
        decreases 8 - i,
    {
        if bytes[i] != expected[i] {
            assert(bytes@.subrange(0, 8)[i as int] != expected@[i as int]);
            return false;
        }
        i = i + 1;
    }
    assert(bytes@.subrange(0, 8) =~= expected@);
    true
}

/// The words of a text split at white space, gathered from `cur` (the word being read) and
/// `acc` (the words already read).
pub open spec fn words_from(s: Seq<char>, cur: Seq<char>, acc: Seq<Seq<char>>) -> Seq<Seq<char>>
    decreases s.len(),
{
    if s.len() == 0 {
        if cur.len() > 0 {
            acc.push(cur)
        } else {
            acc
        }
    } else if unicode_whitespace(s[0]) {
        words_from(s.drop_first(), Seq::empty(), if cur.len() > 0 { acc.push(cur) } else { acc })
    } else {
        words_from(s.drop_first(), cur.push(s[0]), acc)
    }
}

/// The words of a text (`split_whitespace`).
pub open spec fn words(s: Seq<char>) -> Seq<Seq<char>> {
    words_from(s, Seq::empty(), Seq::empty())
}

/// The words already read, as texts.
pub open spec fn word_views(found: Seq<Vec<char>>) -> Seq<Seq<char>> {
    found.map_values(|w: Vec<char>| w@)
}

/// The words of a text, split at white space.
pub fn split_words(line: &str) -> (r: Vec<Vec<char>>)
    ensures
        word_views(r@) == words(line@),
{
    let v = chars_of(line);
    let mut cur: Vec<char> = Vec::new();
    let mut found: Vec<Vec<char>> = Vec::new();
    let mut i: usize = 0;
    assert(v@.skip(0) =~= v@);
    assert(word_views(found@) =~= Seq::<Seq<char>>::empty());
    assert(cur@ =~= Seq::<char>::empty());
    while i < v.len()
        invariant
            v@ == line@,
            i <= v@.len(),
            words(line@) == words_from(v@.skip(i as int), cur@, word_views(found@)),
        decreases v@.len() - i,
    {
        let c = v[i];
        assert(v@.skip(i as int).drop_first() =~= v@.skip(i + 1));
        assert(v@.skip(i as int)[0] == c);
        if is_whitespace(c) {
            if cur.len() > 0 {
                let ghost before = found@;
                let w = cur;
                found.push(w);
                assert(word_views(found@) =~= word_views(before).push(w@));
            }
            cur = Vec::new();
        } else {
            cur.push(c);
        }
        i = i + 1;
    }
    assert(v@.skip(i as int) =~= Seq::<char>::empty());
    if cur.len() > 0 {
        let ghost before = found@;
        let w = cur;
        found.push(w);
        assert(word_views(found@) =~= word_views(before).push(w@));
    }
    found
}

/// The target of a tunnel request line (`CONNECT host:port HTTP/1.1`): its second word;
/// `None` when there is none (the host then answers 400).
pub fn connect_target(line: &str) -> (r: Option<String>)
    ensures
        words(line@).len() >= 2 ==> (r matches Some(t) && t@ == words(line@)[1]),
        words(line@).len() < 2 ==> r is None,
{
    let found = split_words(line);
    if found.len() >= 2 {
        Some(string_from_chars(found[1].as_slice()))
    } else {
        None
    }
}

/// What the host writes back on a tunnel: 400 when the request line has no target.
pub fn tunnel_bad_request() -> (r: &'static str)
    ensures
        r@ == "HTTP/1.1 400 Bad Request\r\n\r\n"@,
{
    "HTTP/1.1 400 Bad Request\r\n\r\n"
}

/// What the host writes back on a tunnel once the target is reached.
pub fn tunnel_established() -> (r: &'static str)
    ensures
        r@ == "HTTP/1.1 200 Connection Established\r\n\r\n"@,
{
    "HTTP/1.1 200 Connection Established\r\n\r\n"
}

/// What the host writes back on a tunnel whose target cannot be reached.
pub fn tunnel_bad_gateway() -> (r: &'static str)
    ensures
        r@ == "HTTP/1.1 502 Bad Gateway\r\n\r\n"@,
{
    "HTTP/1.1 502 Bad Gateway\r\n\r\n"
}

} // verus!
