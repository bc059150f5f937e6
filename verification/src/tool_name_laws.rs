//! What holds of tool names on the wire, character by character.

use vstd::prelude::*;

use crate::text::{
    has_prefix, lemma_split_at_last, lemma_split_is_last, lemma_split_parts, occurs_at,
    split_at_last,
};
use crate::tool_name::{decoded_tool_name, encoded_tool_name, is_tool_name_char, valid_tool_name};

verus! {

/// A flat name is the tool's own name, or the namespace, two underscores and the
/// tool's own name.
pub proof fn law_flat_names(namespace: Seq<char>, tool: Seq<char>)
    ensures
        encoded_tool_name(None, tool) == tool,
        encoded_tool_name(Some(namespace), tool) == namespace + seq!['_', '_'] + tool,
{
    reveal_strlit("__");
    assert("__"@ =~= seq!['_', '_']);
}

/// The code points of the letters and digits of ASCII, the underscore and the
/// hyphen.
pub open spec fn is_plain_code(n: int) -> bool {
    ||| 97 <= n <= 122
    ||| 65 <= n <= 90
    ||| 48 <= n <= 57
    ||| n == 95
    ||| n == 45
}

/// A name that a provider takes.
pub open spec fn is_taken(name: Seq<char>) -> bool {
    &&& 1 <= name.len() <= 64
    &&& forall|i: int| 0 <= i < name.len() ==> is_plain_code((#[trigger] name[i]) as int)
}

/// A provider takes names of up to 64 plain characters, and no others.
pub proof fn law_valid_names(name: Seq<char>)
    ensures
        valid_tool_name(name) <==> is_taken(name),
{
    if valid_tool_name(name) {
        assert forall|i: int| 0 <= i < name.len() implies is_plain_code(
            (#[trigger] name[i]) as int,
        ) by {
            assert(is_tool_name_char(name[i]));
        }
    }
    if is_taken(name) {
        assert forall|i: int| 0 <= i < name.len() implies is_tool_name_char(
            #[trigger] name[i],
        ) by {
            assert(is_plain_code(name[i] as int));
        }
    }
}

/// Two underscores stand at `i`.
pub open spec fn underscores_at(name: Seq<char>, i: int) -> bool {
    0 <= i < name.len() - 1 && name[i] == '_' && name[i + 1] == '_'
}

/// A flat name that a namespace of an MCP server and one of its tools make up,
/// with no two underscores in a row behind those between the two.
pub open spec fn is_mcp_name(name: Seq<char>, namespace: Seq<char>, tool: Seq<char>) -> bool {
    &&& name == namespace + seq!['_', '_'] + tool
    &&& tool.len() > 0
    &&& namespace.len() >= 5
    &&& namespace[0] == 'm' && namespace[1] == 'c' && namespace[2] == 'p' && namespace[3] == '_'
        && namespace[4] == '_'
    &&& forall|i: int| namespace.len() < i ==> !#[trigger] underscores_at(name, i)
}

proof fn lemma_underscores(name: Seq<char>, i: int)
    ensures
        occurs_at(name, "__"@, i) <==> underscores_at(name, i),
{
    reveal_strlit("__");
    if occurs_at(name, "__"@, i) {
        assert(name.subrange(i, i + 2)[0] == name[i]);
        assert(name.subrange(i, i + 2)[1] == name[i + 1]);
    }
    if underscores_at(name, i) {
        assert(name.subrange(i, i + 2) =~= "__"@);
    }
}

proof fn lemma_mcp_prefix(namespace: Seq<char>)
    ensures
        has_prefix(namespace, "mcp__"@) <==> namespace.len() >= 5 && namespace[0] == 'm'
            && namespace[1] == 'c' && namespace[2] == 'p' && namespace[3] == '_' && namespace[4]
            == '_',
{
    reveal_strlit("mcp__");
    if namespace.len() >= 5 {
        let start = namespace.take(5);
        assert(start[0] == namespace[0] && start[1] == namespace[1] && start[2] == namespace[2]
            && start[3] == namespace[3] && start[4] == namespace[4]);
        if namespace[0] == 'm' && namespace[1] == 'c' && namespace[2] == 'p' && namespace[3] == '_'
            && namespace[4] == '_' {
            assert(start =~= "mcp__"@);
        }
    }
}

proof fn lemma_mcp_name_is_split(name: Seq<char>, namespace: Seq<char>, tool: Seq<char>)
    requires
        is_mcp_name(name, namespace, tool),
    ensures
        decoded_tool_name(name) == (Some(namespace), tool),
{
    let at = namespace.len() as int;
    assert(underscores_at(name, at));
    assert forall|later: int| occurs_at(name, "__"@, later) implies later <= at by {
        lemma_underscores(name, later);
    }
    lemma_underscores(name, at);
    lemma_split_at_last(name, "__"@, at);
    reveal_strlit("__");
    assert(name.take(at) =~= namespace);
    assert(name.skip(at + 2) =~= tool);
    lemma_mcp_prefix(namespace);
}

proof fn lemma_last_underscores(name: Seq<char>, namespace: Seq<char>, tool: Seq<char>)
    requires
        name == namespace + "__"@ + tool,
        forall|later: int| occurs_at(name, "__"@, later) ==> later <= namespace.len(),
        has_prefix(namespace, "mcp__"@),
        tool.len() > 0,
    ensures
        is_mcp_name(name, namespace, tool),
{
    lemma_mcp_prefix(namespace);
    assert("__"@ =~= seq!['_', '_']) by {
        reveal_strlit("__");
    }
    assert forall|i: int| namespace.len() < i implies !#[trigger] underscores_at(name, i) by {
        lemma_underscores(name, i);
    }
}

proof fn lemma_split_is_mcp_name(name: Seq<char>, namespace: Seq<char>, tool: Seq<char>)
    requires
        split_at_last(name, "__"@) == Some((namespace, tool)),
        has_prefix(namespace, "mcp__"@),
        tool.len() > 0,
    ensures
        is_mcp_name(name, namespace, tool),
{
    assert(name == namespace + "__"@ + tool) by {
        lemma_split_parts(name, "__"@);
    }
    assert(forall|later: int| occurs_at(name, "__"@, later) ==> later <= namespace.len()) by {
        lemma_split_is_last(name, "__"@);
    }
    lemma_last_underscores(name, namespace, tool);
}

/// A flat name is taken apart if and only if a namespace of an MCP server and a
/// tool make it up, and then into these. Every other name stays whole.
pub proof fn law_names_are_taken_apart(name: Seq<char>, namespace: Seq<char>, tool: Seq<char>)
    ensures
        decoded_tool_name(name) == (Some(namespace), tool) <==> is_mcp_name(name, namespace, tool),
        decoded_tool_name(name).0 is None ==> decoded_tool_name(name).1 == name,
{
    if is_mcp_name(name, namespace, tool) {
        lemma_mcp_name_is_split(name, namespace, tool);
    }
    if decoded_tool_name(name) == (Some(namespace), tool) {
        lemma_split_is_mcp_name(name, namespace, tool);
    }
}

} // verus!
