//! Tool names on the wire.
//!
//! A chat completions provider knows tools by a single flat name. A tool that
//! lives in a namespace is sent as the namespace, two underscores and its own
//! name, and what comes back is taken apart again where the namespace is one
//! of an MCP server.

use vstd::prelude::*;
use vstd::string::*;

use crate::text::{has_prefix, lemma_split_at_last, lemma_split_parts, occurs_at, split_at_last};
use crate::text::{chars_of, rsplit_once, starts_with};

verus! {

/// The flat name of a tool.
pub open spec fn encoded_tool_name(namespace: Option<Seq<char>>, name: Seq<char>) -> Seq<char> {
    match namespace {
        Some(namespace) => namespace + "__"@ + name,
        None => name,
    }
}

/// The namespace and the tool that a flat name stands for.
pub open spec fn decoded_tool_name(name: Seq<char>) -> (Option<Seq<char>>, Seq<char>) {
    match split_at_last(name, "__"@) {
        Some((namespace, tool)) => if has_prefix(namespace, "mcp__"@) && tool.len() > 0 {
            (Some(namespace), tool)
        } else {
            (None, name)
        },
        None => (None, name),
    }
}

/// The characters that a flat tool name may hold.
pub open spec fn is_tool_name_char(c: char) -> bool {
    ||| 'a' <= c <= 'z'
    ||| 'A' <= c <= 'Z'
    ||| '0' <= c <= '9'
    ||| c == '_'
    ||| c == '-'
}

/// The flat names that a provider takes.
pub open spec fn valid_tool_name(name: Seq<char>) -> bool {
    &&& 0 < name.len() <= 64
    &&& forall|i: int| 0 <= i < name.len() ==> is_tool_name_char(#[trigger] name[i])
}

/// The flat name under which a tool is sent to the provider.
pub fn encode_chat_tool_name(namespace: Option<&str>, name: &str) -> (flat: String)
    ensures
        flat@ == encoded_tool_name(namespace.deep_view(), name@),
{
    match namespace {
        Some(namespace) => {
            let mut flat: String = namespace.to_owned();
            flat.append("__");
            flat.append(name);
            flat
        },
        None => name.to_owned(),
    }
}

/// The namespace and the tool behind a name that the provider called.
pub fn decode_chat_tool_name(name: String) -> (decoded: (Option<String>, String))
    ensures
        decoded.deep_view() == decoded_tool_name(name@),
{
    if let Some((namespace, tool)) = rsplit_once(name.as_str(), "__") {
        if starts_with(namespace, "mcp__") && !tool.is_empty() {
            return (Some(namespace.to_owned()), tool.to_owned());
        }
    }
    (None, name)
}

/// Whether the provider takes a tool under this name.
pub fn is_valid_chat_tool_name(name: &str) -> (valid: bool)
    ensures
        valid == valid_tool_name(name@),
{
    let chars: Vec<char> = chars_of(name);
    if chars.len() == 0 || chars.len() > 64 {
        return false;
    }
    for i in 0..chars.len()
        invariant
            chars@ == name@,
            forall|j: int| 0 <= j < i ==> is_tool_name_char(#[trigger] name@[j]),
    {
        let c: char = chars[i];
        let allowed: bool = ('a' <= c && c <= 'z') || ('A' <= c && c <= 'Z') || ('0' <= c && c
            <= '9') || c == '_' || c == '-';
        if !allowed {
            assert(!is_tool_name_char(name@[i as int]));
            return false;
        }
    }
    true
}

/// Taking a flat name apart loses nothing: put together again, the namespace
/// and the tool give the name.
pub proof fn law_decode_then_encode(name: Seq<char>)
    ensures
        encoded_tool_name(decoded_tool_name(name).0, decoded_tool_name(name).1) == name,
{
    let (namespace, tool) = decoded_tool_name(name);
    if namespace is Some {
        reveal_strlit("__");
        lemma_split_parts(name, "__"@);
    }
}

/// A tool of an MCP namespace comes back as it was sent, where its own name is
/// not empty, holds no two underscores in a row and does not begin with one.
pub proof fn law_encode_then_decode(namespace: Seq<char>, tool: Seq<char>)
    requires
        has_prefix(namespace, "mcp__"@),
        tool.len() > 0,
        tool[0] != '_',
        forall|at: int| !occurs_at(tool, "__"@, at),
    ensures
        decoded_tool_name(encoded_tool_name(Some(namespace), tool)) == (Some(namespace), tool),
{
    reveal_strlit("__");
    let flat = encoded_tool_name(Some(namespace), tool);
    let at = namespace.len() as int;
    assert(flat.subrange(at, at + 2) =~= "__"@);
    assert forall|later: int| occurs_at(flat, "__"@, later) implies later <= at by {
        if later == at + 1 {
            assert(flat.subrange(later, later + 2)[1] == tool[0]);
        } else if later >= at + 2 {
            assert(tool.subrange(later - at - 2, later - at) =~= flat.subrange(later, later + 2));
            assert(occurs_at(tool, "__"@, later - at - 2));
        }
    }
    lemma_split_at_last(flat, "__"@, at);
    assert(flat.take(at) =~= namespace);
    assert(flat.skip(at + 2) =~= tool);
}

} // verus!
