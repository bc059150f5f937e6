//! What holds of the usage that the providers report.

use vstd::prelude::*;

use crate::json::Json;
use crate::json_laws::{entry, law_members_are_read};
use crate::sse::chunk::{
    token_usage, ChatCompletionTokensDetails, ChatPromptTokensDetails, ChatUsage,
};
use crate::sse::zai_chat::reported_usage;

verus! {

/// Nothing stands there, or nothing but null.
pub open spec fn is_absent(member: Option<Json>) -> bool {
    member is None || member == Some(Json::Null)
}

/// A count stands there, or none does.
pub open spec fn writes_count(member: Option<Json>, n: Option<i64>) -> bool {
    match n {
        Some(n) => member == Some(Json::Integer(n as int)),
        None => is_absent(member),
    }
}

/// An object with a count under `key` stands there, or none does.
pub open spec fn writes_details(
    member: Option<Json>,
    key: Seq<char>,
    details: Option<Option<i64>>,
) -> bool {
    match details {
        Some(n) => member matches Some(object) && object is Object && writes_count(
            object.member(key),
            n,
        ),
        None => is_absent(member),
    }
}

/// A document that writes a usage: an object with the three counts, and with
/// the details where there are any.
pub open spec fn writes_usage(document: Json, usage: ChatUsage) -> bool {
    &&& document is Object
    &&& writes_count(document.member("prompt_tokens"@), Some(usage.prompt_tokens))
    &&& writes_count(document.member("completion_tokens"@), Some(usage.completion_tokens))
    &&& writes_count(document.member("total_tokens"@), Some(usage.total_tokens))
    &&& writes_details(
        document.member("completion_tokens_details"@),
        "reasoning_tokens"@,
        match usage.completion_tokens_details {
            Some(ChatCompletionTokensDetails { reasoning_tokens }) => Some(reasoning_tokens),
            None => None,
        },
    )
    &&& writes_details(
        document.member("prompt_tokens_details"@),
        "cached_tokens"@,
        match usage.prompt_tokens_details {
            Some(ChatPromptTokensDetails { cached_tokens }) => Some(cached_tokens),
            None => None,
        },
    )
}

/// Both streams read the same usage from the same document, whether it is read
/// as a whole or member by member: every count is copied, the total among them,
/// and none is computed.
pub proof fn law_usage_is_read_alike(document: Json, usage: ChatUsage)
    requires
        writes_usage(document, usage),
    ensures
        reported_usage(Some(document)) == Some(token_usage(usage)),
{
}

/// Each count of a usage that is read as a whole is that of its own field,
/// whatever the other fields hold, and 0 where its field is left out.
pub proof fn law_counts_have_their_own_fields(usage: ChatUsage)
    ensures
        token_usage(usage).input_tokens == usage.prompt_tokens,
        token_usage(usage).output_tokens == usage.completion_tokens,
        token_usage(usage).total_tokens == usage.total_tokens,
        forall|n: i64|
            usage.completion_tokens_details == Some(
                ChatCompletionTokensDetails { reasoning_tokens: Some(n) },
            ) ==> #[trigger] same_count(token_usage(usage).reasoning_output_tokens, n),
        usage.completion_tokens_details is None
            || usage.completion_tokens_details->Some_0.reasoning_tokens is None ==> token_usage(
            usage,
        ).reasoning_output_tokens == 0,
        forall|n: i64|
            usage.prompt_tokens_details == Some(ChatPromptTokensDetails { cached_tokens: Some(n) })
                ==> #[trigger] same_count(token_usage(usage).cached_input_tokens, n),
        usage.prompt_tokens_details is None || usage.prompt_tokens_details->Some_0.cached_tokens
            is None ==> token_usage(usage).cached_input_tokens == 0,
{
}

/// Two counts are the same.
pub open spec fn same_count(left: i64, right: i64) -> bool {
    left == right
}

/// The count that a member holds: an integer that fits, and 0 for anything else.
pub open spec fn held_count(member: Option<Json>) -> int {
    match member {
        Some(Json::Integer(n)) if -0x8000_0000_0000_0000 <= n <= 0x7fff_ffff_ffff_ffff => n,
        _ => 0,
    }
}

/// What stands under `key` in the details of a usage.
pub open spec fn detail(document: Json, details: Seq<char>, key: Seq<char>) -> Option<Json> {
    match entry(document, details) {
        Some(inner) => entry(inner, key),
        None => None,
    }
}

/// Each count of a usage that is read member by member is that of its own
/// member, whatever the others hold. A usage is reported if and only if there
/// is a document for it, of whatever kind.
pub proof fn law_counts_have_their_own_members(document: Json)
    ensures
        reported_usage(None) is None,
        reported_usage(Some(document)) matches Some(usage) && {
            &&& usage.input_tokens == held_count(entry(document, "prompt_tokens"@))
            &&& usage.output_tokens == held_count(entry(document, "completion_tokens"@))
            &&& usage.total_tokens == held_count(entry(document, "total_tokens"@))
            &&& usage.cached_input_tokens == held_count(
                detail(document, "prompt_tokens_details"@, "cached_tokens"@),
            )
            &&& usage.reasoning_output_tokens == held_count(
                detail(document, "completion_tokens_details"@, "reasoning_tokens"@),
            )
        },
{
    law_members_are_read(document, "prompt_tokens"@);
    law_members_are_read(document, "completion_tokens"@);
    law_members_are_read(document, "total_tokens"@);
    law_members_are_read(document, "prompt_tokens_details"@);
    law_members_are_read(document, "completion_tokens_details"@);
    if let Some(details) = entry(document, "prompt_tokens_details"@) {
        law_members_are_read(details, "cached_tokens"@);
    }
    if let Some(details) = entry(document, "completion_tokens_details"@) {
        law_members_are_read(details, "reasoning_tokens"@);
    }
}

} // verus!
