//! What holds of the tools that a provider is offered.

use vstd::prelude::*;

use crate::endpoint::chat_completions::{
    child_tools, entry_tools, function_tool, function_tools, namespace_tools, offered_tools,
    translated_request, ChatToolView,
};
use crate::endpoint::responses::ResponsesApiRequestView;
use crate::gather::{gathered, lemma_gathered_concat, lemma_gathered_one};
use crate::json::{text_at, Json};
use crate::json_laws::{array_entry, entry, law_members_are_read, string_entry};
use crate::tool_name_laws::{is_taken, law_flat_names, law_valid_names};

verus! {

/// The name of a function with the namespace before it, where there is one.
pub open spec fn flat_name(namespace: Option<Seq<char>>, name: Seq<char>) -> Seq<char> {
    match namespace {
        Some(namespace) => namespace + seq!['_', '_'] + name,
        None => name,
    }
}

/// The function has a name that a provider takes.
pub open spec fn can_be_offered(namespace: Option<Seq<char>>, function: Json) -> bool {
    string_entry(function, "name"@) matches Some(name) && is_taken(flat_name(namespace, name))
}

/// The tool says of a function what the function's document says: its name, its
/// description and its parameters. Where it says nothing of these, the
/// description is empty and the parameters are those of any object.
pub open spec fn describes(
    tool: ChatToolView,
    namespace: Option<Seq<char>>,
    function: Json,
) -> bool {
    &&& tool.kind == "function"@
    &&& string_entry(function, "name"@) matches Some(name) && tool.name == flat_name(
        namespace,
        name,
    )
    &&& string_entry(function, "description"@) matches Some(text) ==> tool.description == text
    &&& string_entry(function, "description"@) is None ==> tool.description.len() == 0
    &&& entry(function, "parameters"@) matches Some(parameters) ==> tool.parameters == parameters
    &&& entry(function, "parameters"@) is None ==> {
        &&& tool.parameters is Object
        &&& forall|key: Seq<char>|
            tool.parameters->Object_0.dom().contains(key) <==> key == "type"@
        &&& tool.parameters->Object_0["type"@] == Json::Text("object"@)
    }
}

/// Offers of a function: one tool that describes it where it can be offered, and
/// none otherwise.
pub open spec fn are_offers_of(
    tools: Seq<ChatToolView>,
    namespace: Option<Seq<char>>,
    function: Json,
) -> bool {
    if can_be_offered(namespace, function) {
        tools.len() == 1 && describes(tools[0], namespace, function)
    } else {
        tools.len() == 0
    }
}

proof fn lemma_function_offers(namespace: Option<Seq<char>>, function: Json)
    ensures
        are_offers_of(function_tools(namespace, function), namespace, function),
        function_tool(namespace, function) matches Some(tool) ==> describes(
            tool,
            namespace,
            function,
        ),
        function_tool(namespace, function) is Some <==> can_be_offered(namespace, function),
{
    law_members_are_read(function, "name"@);
    law_members_are_read(function, "description"@);
    law_members_are_read(function, "parameters"@);
    if let Some(name) = string_entry(function, "name"@) {
        law_valid_names(flat_name(namespace, name));
        if let Some(scope) = namespace {
            law_flat_names(scope, name);
        } else {
            law_flat_names(Seq::empty(), name);
        }
    }
}

proof fn lemma_one_entry(tool: Json)
    ensures
        offered_tools(seq![tool]) == entry_tools(tool),
{
    lemma_gathered_one(tool, |tool: Json| entry_tools(tool));
}

/// A function is offered, with what its document says of it, if and only if a
/// provider takes its name, in a namespace as much as outside of one.
pub proof fn law_functions_are_described(namespace: Option<Seq<char>>, function: Json)
    ensures
        function_tool(namespace, function) is Some <==> can_be_offered(namespace, function),
        function_tool(namespace, function) matches Some(tool) ==> describes(
            tool,
            namespace,
            function,
        ),
{
    lemma_function_offers(namespace, function);
}

/// A function among the tools of a request is offered under its own name.
pub proof fn law_function_entries(function: Json)
    requires
        string_entry(function, "type"@) == Some("function"@),
    ensures
        are_offers_of(offered_tools(seq![function]), None, function),
{
    law_members_are_read(function, "type"@);
    lemma_one_entry(function);
    lemma_function_offers(None, function);
}

/// Anything among the tools of a request that is neither a function nor a
/// namespace is offered as nothing, and so is a namespace that lists no tools.
pub proof fn law_other_entries(tool: Json)
    requires
        string_entry(tool, "type"@) != Some("function"@),
        string_entry(tool, "type"@) == Some("namespace"@) ==> (match array_entry(tool, "tools"@) {
            Some(children) => children.len() == 0,
            None => true,
        }),
    ensures
        offered_tools(seq![tool]).len() == 0,
{
    law_members_are_read(tool, "type"@);
    law_members_are_read(tool, "tools"@);
    lemma_one_entry(tool);
}

/// What each child of a namespace adds: a function is offered under the
/// namespace behind those that come before it, with what its own document says
/// of it, and any other child adds nothing.
pub proof fn law_namespace_children(
    fewer: Json,
    more: Json,
    children: Seq<Json>,
    child: Json,
)
    requires
        string_entry(fewer, "type"@) == Some("namespace"@),
        string_entry(more, "type"@) == Some("namespace"@),
        string_entry(fewer, "name"@) == string_entry(more, "name"@),
        array_entry(fewer, "tools"@) == Some(children),
        array_entry(more, "tools"@) == Some(children.push(child)),
    ensures
        ({
            let before = offered_tools(seq![fewer]);
            let after = offered_tools(seq![more]);
            &&& before.len() <= after.len()
            &&& after.take(before.len() as int) == before
            &&& string_entry(child, "type"@) == Some("function"@) ==> are_offers_of(
                after.skip(before.len() as int),
                string_entry(more, "name"@),
                child,
            )
            &&& string_entry(child, "type"@) != Some("function"@) ==> after == before
        }),
{
    law_members_are_read(fewer, "type"@);
    law_members_are_read(fewer, "name"@);
    law_members_are_read(fewer, "tools"@);
    law_members_are_read(more, "type"@);
    law_members_are_read(more, "name"@);
    law_members_are_read(more, "tools"@);
    law_members_are_read(child, "type"@);
    lemma_one_entry(fewer);
    lemma_one_entry(more);
    lemma_distinct_kinds();
    let namespace = string_entry(more, "name"@);
    let part = |child: Json| child_tools(text_at(more, "name"@), child);
    let fewer_part = |child: Json| child_tools(text_at(fewer, "name"@), child);
    assert(part =~= fewer_part);
    assert(children.push(child) =~= children + seq![child]);
    lemma_gathered_concat(children, seq![child], part);
    lemma_gathered_one(child, part);
    lemma_function_offers(namespace, child);
    let before = offered_tools(seq![fewer]);
    let after = offered_tools(seq![more]);
    assert(before == gathered(children, part));
    assert(after == before + child_tools(namespace, child));
    assert(after.take(before.len() as int) =~= before);
    assert(after.skip(before.len() as int) =~= child_tools(namespace, child));
}

proof fn lemma_distinct_kinds()
    ensures
        "function"@ != "namespace"@,
{
    reveal_strlit("function");
    reveal_strlit("namespace");
    assert("function"@.len() != "namespace"@.len());
}

proof fn lemma_child_is_offered(
    namespace: Option<Seq<char>>,
    children: Seq<Json>,
    i: int,
) -> (k: int)
    requires
        0 <= i < children.len(),
        string_entry(children[i], "type"@) == Some("function"@),
        can_be_offered(namespace, children[i]),
    ensures
        ({
            let tools = gathered(children, |child: Json| child_tools(namespace, child));
            0 <= k < tools.len() && describes(tools[k], namespace, children[i])
        }),
    decreases children.len(),
{
    let part = |child: Json| child_tools(namespace, child);
    let earlier = children.drop_last();
    let tools = gathered(children, part);
    let before = gathered(earlier, part);
    if i == children.len() - 1 {
        law_members_are_read(children[i], "type"@);
        lemma_function_offers(namespace, children[i]);
        assert(tools[before.len() as int] == part(children.last())[0]);
        before.len() as int
    } else {
        assert(earlier[i] == children[i]);
        let k = lemma_child_is_offered(namespace, earlier, i);
        assert(tools[k] == before[k]);
        k
    }
}

/// No function of a namespace is lost, and none loses its schema: each whose
/// flat name a provider takes is offered, and the offer has the parameters and
/// the description that the function's own document gives.
pub proof fn law_namespaced_functions_keep_their_schema(tool: Json, i: int)
    requires
        string_entry(tool, "type"@) == Some("namespace"@),
        array_entry(tool, "tools"@) matches Some(children) && 0 <= i < children.len()
            && string_entry(children[i], "type"@) == Some("function"@) && can_be_offered(
            string_entry(tool, "name"@),
            children[i],
        ),
    ensures
        exists|k: int|
            0 <= k < offered_tools(seq![tool]).len() && describes(
                #[trigger] offered_tools(seq![tool])[k],
                string_entry(tool, "name"@),
                array_entry(tool, "tools"@)->Some_0[i],
            ),
{
    law_members_are_read(tool, "type"@);
    law_members_are_read(tool, "name"@);
    law_members_are_read(tool, "tools"@);
    lemma_one_entry(tool);
    lemma_distinct_kinds();
    let children = array_entry(tool, "tools"@)->Some_0;
    let namespace = string_entry(tool, "name"@);
    let k = lemma_child_is_offered(namespace, children, i);
    assert((|child: Json| child_tools(text_at(tool, "name"@), child)) =~= (|child: Json|
        child_tools(namespace, child)));
    assert(offered_tools(seq![tool]) == namespace_tools(tool));
    assert(describes(offered_tools(seq![tool])[k], namespace, children[i]));
}

/// The tools of a request are offered one by one, in order, and each of them
/// independently of the others.
pub proof fn law_entries_are_offered_in_turn(earlier: Seq<Json>, tool: Json)
    ensures
        offered_tools(Seq::empty()) == Seq::<ChatToolView>::empty(),
        offered_tools(earlier.push(tool)) == offered_tools(earlier) + offered_tools(seq![tool]),
{
    assert(earlier.push(tool) =~= earlier + seq![tool]);
    lemma_gathered_concat(earlier, seq![tool], |tool: Json| entry_tools(tool));
}

/// A request is sent with the tools that its entries offer. They are streamed
/// and chosen by the model if and only if there are any.
pub proof fn law_tools_are_sent(request: ResponsesApiRequestView)
    ensures
        translated_request(request) matches Ok(sent) ==> {
            &&& sent.tools == offered_tools(request.tools)
            &&& sent.tools.len() > 0 ==> sent.tool_stream == Some(true) && sent.tool_choice == Some(
                "auto"@,
            )
            &&& sent.tools.len() == 0 ==> sent.tool_stream is None && sent.tool_choice is None
        },
{
}

} // verus!
