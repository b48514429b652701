//! How a tool call travels from the MCP server to an agent's event loop: the message is
//! framed as `mcp_request:<request id>:<body>`, and the loop takes the frame apart again.
use vstd::prelude::*;
use crate::text::{chars_of, concat2, concat4, find_char_from, has_prefix, index_of_char, lemma_index_of_char, lemma_index_of_char_unique, slice_string, starts_with};

verus! {

/// The text that marks a message as an MCP request.
pub open spec fn mcp_request_tag() -> Seq<char> {
    "mcp_request:"@
}

/// The frame that carries `body` for the request `request_id`.
pub open spec fn spec_mcp_request_message(request_id: Seq<char>, body: Seq<char>) -> Seq<char> {
    mcp_request_tag() + request_id + seq![':'] + body
}

/// What the event loop reads out of a message: the request id (the text between the tag
/// and the next colon) and the body (everything after that colon); nothing when the
/// message does not start with the tag or has no second colon.
pub open spec fn spec_parse_mcp_request_message(content: Seq<char>) -> Option<(Seq<char>, Seq<char>)> {
    if has_prefix(content, mcp_request_tag()) {
        let rest = content.skip(mcp_request_tag().len() as int);
        match index_of_char(rest, ':') {
            Some(i) => Some((rest.take(i as int), rest.skip(i as int + 1))),
            None => None,
        }
    } else {
        None
    }
}

/// Frames `body` for the request `request_id`.
pub fn mcp_request_message(request_id: &str, body: &str) -> (r: String)
    ensures
        r@ == spec_mcp_request_message(request_id@, body@),
{
    let r = concat4("mcp_request:", request_id, ":", body);
    proof {
        reveal_strlit(":");
        assert(":"@ =~= seq![':']);
    }
    r
}

/// Takes a framed message apart into its request id and body.
pub fn parse_mcp_request_message(content: &str) -> (r: Option<(String, String)>)
    ensures
        match r {
            Some((id, body)) => spec_parse_mcp_request_message(content@) == Some((id@, body@)),
            None => spec_parse_mcp_request_message(content@) is None,
        },
{
    proof {
        reveal_strlit("mcp_request:");
    }
    if !starts_with(content, "mcp_request:") {
        return None;
    }
    let chars = chars_of(content);
    let tag_len: usize = 12;
    assert(mcp_request_tag().len() == 12);
    let ghost rest = content@.skip(12);
    match find_char_from(&chars, tag_len, ':') {
        Some(i) => {
            let id = slice_string(&chars, tag_len, i);
            let body = slice_string(&chars, i + 1, chars.len());
            proof {
                lemma_index_of_char_unique(rest, ':', i - 12);
                assert(id@ =~= rest.take(i - 12));
                assert(body@ =~= rest.skip(i - 12 + 1));
            }
            Some((id, body))
        },
        None => {
            proof {
                lemma_index_of_char(rest, ':');
                if index_of_char(rest, ':') is Some {
                    let k = index_of_char(rest, ':')->0;
                    assert(chars@[12 + k as int] == ':');
                }
            }
            None
        },
    }
}

/// Framing then parsing gives back the request id and the body, whenever the request id
/// holds no colon.
pub proof fn lemma_parse_inverts_frame(request_id: Seq<char>, body: Seq<char>)
    requires
        !request_id.contains(':'),
    ensures
        spec_parse_mcp_request_message(spec_mcp_request_message(request_id, body)) == Some(
            (request_id, body),
        ),
{
    reveal_strlit("mcp_request:");
    let c = spec_mcp_request_message(request_id, body);
    assert(c.subrange(0, 12) =~= mcp_request_tag());
    let rest = c.skip(12);
    assert(rest =~= request_id + seq![':'] + body);
    assert(rest[request_id.len() as int] == ':');
    assert forall|j: int| 0 <= j < request_id.len() implies rest[j] != ':' by {
        assert(rest[j] == request_id[j]);
    }
    lemma_index_of_char_unique(rest, ':', request_id.len() as int);
    assert(rest.take(request_id.len() as int) =~= request_id);
    assert(rest.skip(request_id.len() as int + 1) =~= body);
}

/// A message that parses is exactly the frame of what was read out of it, and the
/// request id read out holds no colon.
pub proof fn lemma_frame_inverts_parse(content: Seq<char>)
    requires
        spec_parse_mcp_request_message(content) is Some,
    ensures
        ({
            let (id, body) = spec_parse_mcp_request_message(content)->0;
            &&& spec_mcp_request_message(id, body) == content
            &&& !id.contains(':')
        }),
{
    reveal_strlit("mcp_request:");
    let rest = content.skip(12);
    lemma_index_of_char(rest, ':');
    let i = index_of_char(rest, ':')->0 as int;
    let id = rest.take(i);
    let body = rest.skip(i + 1);
    assert(content =~= content.subrange(0, 12) + rest);
    assert(rest =~= id + seq![':'] + body);
    assert(content =~= spec_mcp_request_message(id, body));
    assert forall|j: int| 0 <= j < id.len() implies id[j] != ':' by {
        assert(id[j] == rest[j]);
    }
}

/// Whether `c` may occur in the text form of a random identifier: a lower-case hex digit or
/// a hyphen.
pub open spec fn is_uuid_char(c: char) -> bool {
    ('0' <= c && c <= '9') || ('a' <= c && c <= 'f') || c == '-'
}

/// A fresh random identifier in its hyphenated text form (`uuid::Uuid::new_v4().to_string()`).
/// Trusted: the text has 36 characters, each a lower-case hex digit or a hyphen (the
/// crate's `Display` writes the hyphenated lower-case form). Which identifier comes back is
/// chance, and is not stated.
#[verifier::external_body]
fn uuid_v4_text() -> (s: String)
    ensures
        s@.len() == 36,
        forall|i: int| 0 <= i < 36 ==> is_uuid_char(#[trigger] s@[i]),
{
    uuid::Uuid::new_v4().to_string()
}

/// Whether a text has the form of a request id: `req-` followed by 36 characters of a
/// random identifier's text form.
pub open spec fn spec_is_request_id(id: Seq<char>) -> bool {
    &&& has_prefix(id, "req-"@)
    &&& id.len() == 40
    &&& forall|i: int| 4 <= i < 40 ==> is_uuid_char(#[trigger] id[i])
}

/// A fresh request id: `req-` followed by a random identifier.
pub fn new_request_id() -> (id: String)
    ensures
        spec_is_request_id(id@),
        has_prefix(id@, "req-"@),
        id@.len() == 40,
        forall|i: int| 4 <= i < 40 ==> is_uuid_char(#[trigger] id@[i]),
        !id@.contains(':'),
{
    let u = uuid_v4_text();
    let id = concat2("req-", u.as_str());
    proof {
        reveal_strlit("req-");
        assert(id@.subrange(0, 4) =~= "req-"@);
        assert forall|i: int| 4 <= i < 40 implies is_uuid_char(#[trigger] id@[i]) by {
            assert(id@[i] == u@[i - 4]);
        }
        assert forall|i: int| 0 <= i < id@.len() implies id@[i] != ':' by {
            if i >= 4 {
                assert(is_uuid_char(id@[i]));
            }
        }
    }
    id
}

} // verus!
