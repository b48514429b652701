//! The functions that the host offers to guest agents: what each answers at once, what it
//! sends back to the agent when its work is done, and the HTTP requests that `FetchData`
//! makes.
use vstd::prelude::*;
use crate::common::HostMethod;
use crate::string_map::StringMap;
use crate::http_proxy::{ProxyMethod, to_uppercase, uppercased, is_known_method_name, lemma_method_names_distinct};
use crate::json::{json_quote, json_quoted};
use crate::text::{chars_of, concat2, concat3, ends_with, has_suffix, join, join_strings, views, string_from_chars};
use crate::mcp_http::same_text;

verus! {

/// Whether a file of the guests' build directory is an agent's binary: build records
/// (`.d`) and Cargo's lock files (`.cargo-lock`) are not.
pub fn is_agent_binary(path: &str) -> (b: bool)
    ensures
        b == !(has_suffix(path@, ".d"@) || has_suffix(path@, ".cargo-lock"@)),
{
    !(ends_with(path, ".d") || ends_with(path, ".cargo-lock"))
}

/// The part of a path after its last `/` (all of it when there is none).
pub open spec fn last_segment(s: Seq<char>) -> Seq<char>
    decreases s.len(),
{
    if s.len() == 0 {
        s
    } else if s.last() == '/' {
        Seq::empty()
    } else {
        last_segment(s.drop_last()).push(s.last())
    }
}

/// An agent's id: the file name of its guest binary (`split("/").last()`).
pub fn agent_short_id(binary_path: &str) -> (r: String)
    ensures
        r@ == last_segment(binary_path@),
{
    let v = chars_of(binary_path);
    let mut start: usize = 0;
    let mut i: usize = 0;
    while i < v.len()
        invariant
            v@ == binary_path@,
            start <= i <= v@.len(),
            last_segment(v@.subrange(0, i as int)) == v@.subrange(start as int, i as int),
        decreases v@.len() - i,
    {
        proof {
            assert(v@.subrange(0, i + 1).drop_last() =~= v@.subrange(0, i as int));
            assert(v@.subrange(0, i + 1).last() == v@[i as int]);
        }
        if v[i] == '/' {
            start = i + 1;
            assert(v@.subrange(start as int, i + 1) =~= Seq::<char>::empty());
        } else {
            assert(v@.subrange(start as int, i + 1) =~= v@.subrange(start as int, i as int).push(v@[i as int]));
        }
        i = i + 1;
    }
    assert(v@.subrange(0, v@.len() as int) =~= v@);
    crate::text::slice_string(&v, start, v.len())
}

/// What a host function answers at once, before its work is done.
pub open spec fn spec_acknowledgement(method: HostMethod) -> Seq<char> {
    match method {
        HostMethod::FetchData => "Http Request sent"@,
        HostMethod::FinalResult => Seq::empty(),
        HostMethod::CreateVM => "VM creation initiated"@,
        HostMethod::ExecuteVMCommand => "VM command execution initiated"@,
        HostMethod::SpawnCommand => "Spawn command initiated"@,
        HostMethod::ListSpawnedProcesses => "List spawned processes initiated"@,
        HostMethod::StopSpawnedProcess => "Stop spawned process initiated"@,
        HostMethod::DestroyVM => "VM destruction initiated"@,
        HostMethod::ListVMs => "VM list request initiated"@,
    }
}

/// What a host function answers at once (`FinalResult` answers nothing).
pub fn acknowledgement(method: HostMethod) -> (s: String)
    ensures
        s@ == spec_acknowledgement(method),
{
    match method {
        HostMethod::FetchData => String::from_str("Http Request sent"),
        HostMethod::FinalResult => String::new(),
        HostMethod::CreateVM => String::from_str("VM creation initiated"),
        HostMethod::ExecuteVMCommand => String::from_str("VM command execution initiated"),
        HostMethod::SpawnCommand => String::from_str("Spawn command initiated"),
        HostMethod::ListSpawnedProcesses => String::from_str("List spawned processes initiated"),
        HostMethod::StopSpawnedProcess => String::from_str("Stop spawned process initiated"),
        HostMethod::DestroyVM => String::from_str("VM destruction initiated"),
        HostMethod::ListVMs => String::from_str("VM list request initiated"),
    }
}

/// How a failure of a host function's work is reported to the agent.
pub open spec fn spec_failure_prefix(method: HostMethod) -> Seq<char> {
    match method {
        HostMethod::FetchData => "HTTP request failed: "@,
        HostMethod::FinalResult => Seq::empty(),
        HostMethod::CreateVM => "VM creation failed: "@,
        HostMethod::ExecuteVMCommand => "VM command execution failed: "@,
        HostMethod::SpawnCommand => "Spawn command failed: "@,
        HostMethod::ListSpawnedProcesses => "List spawned processes failed: "@,
        HostMethod::StopSpawnedProcess => "Stop spawned process failed: "@,
        HostMethod::DestroyVM => "VM destruction failed: "@,
        HostMethod::ListVMs => Seq::empty(),
    }
}

/// What a host function sends back to the agent (with the agent's callback) once its work
/// is done: the result, or the failure with its reason.
pub fn work_result(method: HostMethod, outcome: Result<String, String>) -> (s: String)
    ensures
        match outcome {
            Ok(text) => s == text,
            Err(reason) => s@ == spec_failure_prefix(method) + reason@,
        },
{
    match outcome {
        Ok(text) => text,
        Err(reason) => {
            let prefix: &str = match method {
                HostMethod::FetchData => "HTTP request failed: ",
                HostMethod::FinalResult => "",
                HostMethod::CreateVM => "VM creation failed: ",
                HostMethod::ExecuteVMCommand => "VM command execution failed: ",
                HostMethod::SpawnCommand => "Spawn command failed: ",
                HostMethod::ListSpawnedProcesses => "List spawned processes failed: ",
                HostMethod::StopSpawnedProcess => "Stop spawned process failed: ",
                HostMethod::DestroyVM => "VM destruction failed: ",
                HostMethod::ListVMs => "",
            };
            proof {
                reveal_strlit("");
            }
            concat2(prefix, reason.as_str())
        },
    }
}

/// The JSON array of a list of strings (as `serde_json` writes a `Vec<String>`).
pub open spec fn spec_string_array(items: Seq<String>) -> Seq<char> {
    "["@ + join(Seq::new(items.len(), |i: int| json_quoted(items[i]@)), ","@) + "]"@
}

/// The JSON array of a list of strings, as the machines and processes are listed.
pub fn string_array_json(items: &Vec<String>) -> (s: String)
    ensures
        s@ == spec_string_array(items@),
{
    let mut parts: Vec<String> = Vec::new();
    let mut i: usize = 0;
    while i < items.len()
        invariant
            i <= items@.len(),
            parts@.len() == i,
            forall|j: int| 0 <= j < i ==> #[trigger] parts@[j]@ == json_quoted(items@[j]@),
        decreases items@.len() - i,
    {
        parts.push(json_quote(items[i].as_str()));
        i = i + 1;
    }
    assert(views(parts@) =~= Seq::new(items@.len(), |i: int| json_quoted(items@[i]@)));
    let joined = join_strings(&parts, ",");
    concat3("[", joined.as_str(), "]")
}

/// The directory and the time limit, in seconds, with which `ExecuteVMCommand` runs a command.
pub open spec fn command_working_dir() -> Seq<char> {
    "/"@
}

pub const GUEST_COMMAND_TIMEOUT_SECS: u64 = 30;

/// The method of a request that the host makes for an agent, by its upper-cased name; an
/// unknown name is refused.
pub open spec fn spec_request_method(name: Seq<char>) -> Option<ProxyMethod> {
    let u = uppercased(name);
    if u == "GET"@ {
        Some(ProxyMethod::Get)
    } else if u == "POST"@ {
        Some(ProxyMethod::Post)
    } else if u == "PUT"@ {
        Some(ProxyMethod::Put)
    } else if u == "DELETE"@ {
        Some(ProxyMethod::Delete)
    } else if u == "HEAD"@ {
        Some(ProxyMethod::Head)
    } else if u == "OPTIONS"@ {
        Some(ProxyMethod::Options)
    } else if u == "PATCH"@ {
        Some(ProxyMethod::Patch)
    } else {
        None
    }
}

/// The method of a request that an agent asks for is the one whose name is the asked
/// name in upper case, and a name that is no method's is refused.
pub proof fn lemma_request_method_by_name(name: Seq<char>)
    ensures
        forall|k: ProxyMethod| #[trigger] k.spec_method_name() == uppercased(name) ==> spec_request_method(name) == Some(k),
        spec_request_method(name) is None <==> !is_known_method_name(uppercased(name)),
{
    lemma_method_names_distinct();
    assert forall|k: ProxyMethod| #[trigger] k.spec_method_name() == uppercased(name) implies spec_request_method(name)
        == Some(k) by {
        assert(ProxyMethod::Get.spec_method_name() == "GET"@);
        assert(ProxyMethod::Post.spec_method_name() == "POST"@);
        assert(ProxyMethod::Put.spec_method_name() == "PUT"@);
        assert(ProxyMethod::Delete.spec_method_name() == "DELETE"@);
        assert(ProxyMethod::Head.spec_method_name() == "HEAD"@);
        assert(ProxyMethod::Options.spec_method_name() == "OPTIONS"@);
        assert(ProxyMethod::Patch.spec_method_name() == "PATCH"@);
    }
    if spec_request_method(name) is Some {
        let k = spec_request_method(name)->0;
        assert(k.spec_method_name() == uppercased(name));
    }
    if !is_known_method_name(uppercased(name)) {
        assert(ProxyMethod::Get.spec_method_name() != uppercased(name));
        assert(ProxyMethod::Post.spec_method_name() != uppercased(name));
        assert(ProxyMethod::Put.spec_method_name() != uppercased(name));
        assert(ProxyMethod::Delete.spec_method_name() != uppercased(name));
        assert(ProxyMethod::Head.spec_method_name() != uppercased(name));
        assert(ProxyMethod::Options.spec_method_name() != uppercased(name));
        assert(ProxyMethod::Patch.spec_method_name() != uppercased(name));
    }
}

/// The method of a request that the host makes for an agent; `Err("Invalid HTTP method")`
/// for an unknown name.
pub fn request_method(name: &str) -> (r: Result<ProxyMethod, String>)
    ensures
        match spec_request_method(name@) {
            Some(m) => r == Ok::<ProxyMethod, String>(m),
            None => r matches Err(e) && e@ == "Invalid HTTP method"@,
        },
{
    let u = to_uppercase(name);
    let t = u.as_str();
    if same_text(t, "GET") {
        Ok(ProxyMethod::Get)
    } else if same_text(t, "POST") {
        Ok(ProxyMethod::Post)
    } else if same_text(t, "PUT") {
        Ok(ProxyMethod::Put)
    } else if same_text(t, "DELETE") {
        Ok(ProxyMethod::Delete)
    } else if same_text(t, "HEAD") {
        Ok(ProxyMethod::Head)
    } else if same_text(t, "OPTIONS") {
        Ok(ProxyMethod::Options)
    } else if same_text(t, "PATCH") {
        Ok(ProxyMethod::Patch)
    } else {
        Err(String::from_str("Invalid HTTP method"))
    }
}

/// What `http::HeaderName::from_bytes` makes of a name: its normal (lower-case) form, or
/// the error's message.
pub uninterp spec fn header_name_result(name: Seq<char>) -> Result<Seq<char>, Seq<char>>;

/// `reqwest::header::HeaderName::from_bytes`. Trusted: the result is `header_name_result`
/// of the name.
#[verifier::external_body]
fn parse_header_name(name: &str) -> (r: Result<String, String>)
    ensures
        match r {
            Ok(n) => header_name_result(name@) == Ok::<Seq<char>, Seq<char>>(n@),
            Err(e) => header_name_result(name@) == Err::<Seq<char>, Seq<char>>(e@),
        },
{
    reqwest::header::HeaderName::from_bytes(name.as_bytes()).map(|n| n.as_str().to_string()).map_err(|e| e.to_string())
}

/// Whether `http::HeaderValue::from_str` accepts a value: every byte of its UTF-8 form is
/// a tab or at least 32 and not 127, that is, every character is a tab, or is at least
/// U+0020 and not U+007F (a character from U+0080 on is written with bytes of 128 and
/// more).
pub open spec fn header_value_allowed(value: Seq<char>) -> bool {
    forall|i: int| 0 <= i < value.len() ==> (#[trigger] value[i] == '\t' || ((value[i] as u32) >= 0x20
        && (value[i] as u32) != 0x7F))
}

/// What `http::HeaderValue::from_str` says of a value: `None` when it is accepted, else the
/// error's message, which is always "failed to parse header value".
pub open spec fn header_value_error(value: Seq<char>) -> Option<Seq<char>> {
    if header_value_allowed(value) {
        None
    } else {
        Some("failed to parse header value"@)
    }
}

/// `reqwest::header::HeaderValue::from_str`. Trusted: the value is accepted exactly when
/// `header_value_allowed` holds (the crate's byte check: at least 32 and not 127, or a
/// tab), and a refusal's message is the crate's one text for it.
#[verifier::external_body]
fn check_header_value(value: &str) -> (r: Option<String>)
    ensures
        match r {
            Some(e) => header_value_error(value@) == Some(e@),
            None => header_value_error(value@) is None,
        },
{
    reqwest::header::HeaderValue::from_str(value).err().map(|e| e.to_string())
}

/// The user agent sent when the caller names none.
pub open spec fn fallback_user_agent() -> Seq<char> {
    "curl/7.64.1"@
}

/// The headers of a request that the host makes for an agent, read from `pairs` in order:
/// each name in normal form with its last value; the first bad name or value stops with its
/// error; without a `user-agent`, the fallback user agent is added.
pub open spec fn spec_request_headers_from(pairs: Seq<(String, String)>) -> Result<Map<Seq<char>, String>, Seq<char>>
    decreases pairs.len(),
{
    if pairs.len() == 0 {
        Ok(Map::empty())
    } else {
        match spec_request_headers_from(pairs.drop_last()) {
            Err(e) => Err(e),
            Ok(m) => {
                let (k, v) = pairs.last();
                match header_name_result(k@) {
                    Err(e) => Err(e),
                    Ok(n) => match header_value_error(v@) {
                        Some(e) => Err(e),
                        None => Ok(m.insert(n, v)),
                    },
                }
            },
        }
    }
}

/// The headers with the fallback user agent added when none is set.
pub open spec fn spec_request_headers(pairs: Seq<(String, String)>) -> Result<Map<Seq<char>, Seq<char>>, Seq<char>> {
    match spec_request_headers_from(pairs) {
        Err(e) => Err(e),
        Ok(m) => {
            let views_map = Map::new(|k: Seq<char>| m.contains_key(k), |k: Seq<char>| m[k]@);
            if m.contains_key("user-agent"@) {
                Ok(views_map)
            } else {
                Ok(views_map.insert("user-agent"@, fallback_user_agent()))
            }
        },
    }
}

/// Builds the headers of a request that the host makes for an agent.
pub fn request_headers(pairs: &Vec<(String, String)>) -> (r: Result<StringMap<String>, String>)
    ensures
        match spec_request_headers(pairs@) {
            Ok(m) => r matches Ok(h) && h.wf() && Map::new(|k: Seq<char>| h@.contains_key(k), |k: Seq<char>| h@[k]@) == m,
            Err(e) => r matches Err(t) && t@ == e,
        },
{
    let mut headers: StringMap<String> = StringMap::new();
    let mut i: usize = 0;
    while i < pairs.len()
        invariant
            i <= pairs@.len(),
            headers.wf(),
            spec_request_headers_from(pairs@.subrange(0, i as int)) == Ok::<Map<Seq<char>, String>, Seq<char>>(headers@),
        decreases pairs@.len() - i,
    {
        proof {
            assert(pairs@.subrange(0, i + 1).drop_last() =~= pairs@.subrange(0, i as int));
            assert(pairs@.subrange(0, i + 1).last() == pairs@[i as int]);
        }
        let name = match parse_header_name(pairs[i].0.as_str()) {
            Ok(n) => n,
            Err(e) => {
                proof {
                    lemma_request_headers_stay_failed(pairs@, i as int + 1);
                }
                return Err(e);
            },
        };
        match check_header_value(pairs[i].1.as_str()) {
            Some(e) => {
                proof {
                    lemma_request_headers_stay_failed(pairs@, i as int + 1);
                }
                return Err(e);
            },
            None => {},
        }
        headers.insert(name, pairs[i].1.clone());
        i = i + 1;
    }
    assert(pairs@.subrange(0, pairs@.len() as int) =~= pairs@);
    if !headers.contains_key("user-agent") {
        headers.insert(String::from_str("user-agent"), String::from_str("curl/7.64.1"));
    }
    proof {
        let m = Map::new(|k: Seq<char>| headers@.contains_key(k), |k: Seq<char>| headers@[k]@);
        assert(m =~= spec_request_headers(pairs@)->Ok_0);
    }
    Ok(headers)
}

/// Every request that the host makes for an agent carries a user agent: the caller's, or
/// the fallback.
pub proof fn lemma_user_agent_always_sent(pairs: Seq<(String, String)>)
    ensures
        spec_request_headers(pairs) matches Ok(m) ==> m.contains_key("user-agent"@),
{
}

/// Whether pair `i` is the last of `pairs` whose name has the normal form of its own.
pub open spec fn is_last_of_its_name(pairs: Seq<(String, String)>, i: int) -> bool {
    forall|j: int| i < j < pairs.len() ==> #[trigger] header_name_result(pairs[j].0@) != header_name_result(
        pairs[i].0@,
    )
}

/// When the headers are read, every pair is taken in: its name is valid, its value is
/// accepted, the normal form of its name is a header, and that header has the value of the
/// last pair with that name. Nothing else is a header.
pub proof fn lemma_request_headers_from_keep_pairs(pairs: Seq<(String, String)>)
    requires
        spec_request_headers_from(pairs) is Ok,
    ensures
        forall|i: int| 0 <= i < pairs.len() ==> (#[trigger] header_name_result(pairs[i].0@) is Ok
            && header_value_error(pairs[i].1@) is None
            && spec_request_headers_from(pairs)->Ok_0.contains_key(header_name_result(pairs[i].0@)->Ok_0)),
        forall|i: int| 0 <= i < pairs.len() && #[trigger] is_last_of_its_name(pairs, i) ==> spec_request_headers_from(
            pairs,
        )->Ok_0[header_name_result(pairs[i].0@)->Ok_0] == pairs[i].1,
        forall|k: Seq<char>| #[trigger] spec_request_headers_from(pairs)->Ok_0.contains_key(k) ==> exists|i: int|
            0 <= i < pairs.len() && #[trigger] header_name_result(pairs[i].0@) == Ok::<Seq<char>, Seq<char>>(k),
    decreases pairs.len(),
{
    if pairs.len() > 0 {
        let rest = pairs.drop_last();
        let n = pairs.len() - 1;
        lemma_request_headers_from_keep_pairs(rest);
        let m = spec_request_headers_from(pairs)->Ok_0;
        let mr = spec_request_headers_from(rest)->Ok_0;
        let last_name = header_name_result(pairs[n].0@)->Ok_0;
        assert(m == mr.insert(last_name, pairs[n].1));
        assert forall|i: int| 0 <= i < pairs.len() implies (#[trigger] header_name_result(pairs[i].0@) is Ok
            && header_value_error(pairs[i].1@) is None && m.contains_key(header_name_result(pairs[i].0@)->Ok_0)) by {
            if i < n {
                assert(rest[i] == pairs[i]);
                assert(header_name_result(rest[i].0@) is Ok);
            }
        }
        assert forall|i: int| 0 <= i < pairs.len() && #[trigger] is_last_of_its_name(pairs, i) implies m[header_name_result(
            pairs[i].0@,
        )->Ok_0] == pairs[i].1 by {
            if i < n {
                assert(rest[i] == pairs[i]);
                assert(header_name_result(pairs[n].0@) != header_name_result(pairs[i].0@));
                assert(header_name_result(rest[i].0@) is Ok);
                assert(is_last_of_its_name(rest, i)) by {
                    assert forall|j: int| i < j < rest.len() implies #[trigger] header_name_result(rest[j].0@)
                        != header_name_result(rest[i].0@) by {
                        assert(rest[j] == pairs[j]);
                        assert(header_name_result(pairs[j].0@) != header_name_result(pairs[i].0@));
                    }
                }
            }
        }
        assert forall|k: Seq<char>| #[trigger] m.contains_key(k) implies exists|i: int|
            0 <= i < pairs.len() && #[trigger] header_name_result(pairs[i].0@) == Ok::<Seq<char>, Seq<char>>(k) by {
            if k == last_name {
                assert(header_name_result(pairs[n].0@) == Ok::<Seq<char>, Seq<char>>(k));
            } else {
                assert(mr.contains_key(k));
                let i = choose|i: int| 0 <= i < rest.len() && #[trigger] header_name_result(rest[i].0@) == Ok::<
                    Seq<char>,
                    Seq<char>,
                >(k);
                assert(rest[i] == pairs[i]);
                assert(header_name_result(pairs[i].0@) == Ok::<Seq<char>, Seq<char>>(k));
            }
        }
    }
}

/// When a request's headers are accepted, each given pair is sent: the normal form of its
/// name is a header with the value of the last pair of that name; the only other header
/// that can be there is the fallback `user-agent`.
pub proof fn lemma_request_headers_keep_pairs(pairs: Seq<(String, String)>)
    ensures
        spec_request_headers(pairs) is Ok ==> {
            let m = spec_request_headers(pairs)->Ok_0;
            &&& forall|i: int| 0 <= i < pairs.len() ==> (#[trigger] header_name_result(pairs[i].0@) is Ok
                && m.contains_key(header_name_result(pairs[i].0@)->Ok_0))
            &&& forall|i: int| 0 <= i < pairs.len() && #[trigger] is_last_of_its_name(pairs, i) ==> m[header_name_result(
                pairs[i].0@,
            )->Ok_0] == pairs[i].1@
            &&& forall|k: Seq<char>| #[trigger] m.contains_key(k) ==> k == "user-agent"@ || exists|i: int|
                0 <= i < pairs.len() && #[trigger] header_name_result(pairs[i].0@) == Ok::<Seq<char>, Seq<char>>(k)
        },
{
    if spec_request_headers(pairs) is Ok {
        lemma_request_headers_from_keep_pairs(pairs);
        let mf = spec_request_headers_from(pairs)->Ok_0;
        let m = spec_request_headers(pairs)->Ok_0;
        assert forall|i: int| 0 <= i < pairs.len() && #[trigger] is_last_of_its_name(pairs, i) implies m[header_name_result(
            pairs[i].0@,
        )->Ok_0] == pairs[i].1@ by {
            let n = header_name_result(pairs[i].0@)->Ok_0;
            assert(mf.contains_key(n));
            assert(mf[n] == pairs[i].1);
        }
        assert forall|k: Seq<char>| #[trigger] m.contains_key(k) implies k == "user-agent"@ || exists|i: int|
            0 <= i < pairs.len() && #[trigger] header_name_result(pairs[i].0@) == Ok::<Seq<char>, Seq<char>>(k) by {
            if k != "user-agent"@ {
                assert(mf.contains_key(k));
            }
        }
    }
}

/// Once reading the headers fails, it stays failed with the same error.
pub proof fn lemma_request_headers_stay_failed(pairs: Seq<(String, String)>, n: int)
    requires
        0 <= n <= pairs.len(),
        spec_request_headers_from(pairs.subrange(0, n)) is Err,
    ensures
        spec_request_headers_from(pairs) == spec_request_headers_from(pairs.subrange(0, n)),
    decreases pairs.len() - n,
{
    if n < pairs.len() {
        assert(pairs.subrange(0, n + 1).drop_last() =~= pairs.subrange(0, n));
        lemma_request_headers_stay_failed(pairs, n + 1);
    } else {
        assert(pairs.subrange(0, n) =~= pairs);
    }
}

} // verus!
