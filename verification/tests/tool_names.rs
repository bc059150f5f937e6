use codex_api::tool_name::{decode_chat_tool_name, encode_chat_tool_name, is_valid_chat_tool_name};

fn decoded(name: &str) -> (Option<String>, String) {
    decode_chat_tool_name(name.to_string())
}

fn split(namespace: &str, tool: &str) -> (Option<String>, String) {
    (Some(namespace.to_string()), tool.to_string())
}

fn whole(name: &str) -> (Option<String>, String) {
    (None, name.to_string())
}

#[test]
fn decodes_mcp_tool_names() {
    assert_eq!(
        decode_chat_tool_name("mcp__calendar__lookup".to_string()),
        (Some("mcp__calendar".to_string()), "lookup".to_string())
    );
    assert_eq!(
        decode_chat_tool_name("shell_command".to_string()),
        (None, "shell_command".to_string())
    );
}

#[test]
fn the_last_separator_splits_a_name() {
    assert_eq!(decoded("mcp__a__b__c"), split("mcp__a__b", "c"));
    assert_eq!(decoded("mcp__a___b"), split("mcp__a_", "b"));
    assert_eq!(decoded("mcp____b"), split("mcp__", "b"));
}

#[test]
fn names_outside_of_mcp_namespaces_stay_whole() {
    assert_eq!(decoded("other__server__tool"), whole("other__server__tool"));
    assert_eq!(decoded("mcp__tool"), whole("mcp__tool"));
    assert_eq!(decoded("mcp__server__"), whole("mcp__server__"));
    assert_eq!(decoded("mcp__"), whole("mcp__"));
    assert_eq!(decoded("__"), whole("__"));
    assert_eq!(decoded("_"), whole("_"));
    assert_eq!(decoded(""), whole(""));
}

#[test]
fn names_beyond_ascii_are_split_by_characters() {
    assert_eq!(decoded("mcp__käse__brötchen"), split("mcp__käse", "brötchen"));
    assert_eq!(decoded("käse"), whole("käse"));
}

#[test]
fn flat_names_hold_the_namespace_and_the_tool() {
    assert_eq!(encode_chat_tool_name(Some("mcp__calendar"), "lookup"), "mcp__calendar__lookup");
    assert_eq!(encode_chat_tool_name(None, "shell_command"), "shell_command");
    assert_eq!(encode_chat_tool_name(Some(""), ""), "__");
}

#[test]
fn taking_a_name_apart_loses_nothing() {
    for name in ["mcp__a__b__c", "shell_command", "mcp__a___b", "mcp__server__", "x__y", ""] {
        let (namespace, tool) = decoded(name);
        assert_eq!(encode_chat_tool_name(namespace.as_deref(), &tool), name);
    }
}

#[test]
fn a_tool_of_an_mcp_namespace_comes_back() {
    for (namespace, tool) in [("mcp__calendar", "lookup"), ("mcp__a__b", "c_d"), ("mcp___", "x_")] {
        let flat = encode_chat_tool_name(Some(namespace), tool);
        assert_eq!(decode_chat_tool_name(flat), split(namespace, tool));
    }
}

#[test]
fn a_tool_that_begins_with_an_underscore_comes_back_changed() {
    let flat = encode_chat_tool_name(Some("mcp__a"), "_b");
    assert_eq!(decode_chat_tool_name(flat), split("mcp__a_", "b"));
}

#[test]
fn valid_names_are_short_and_plain() {
    assert!(is_valid_chat_tool_name("shell_command"));
    assert!(is_valid_chat_tool_name("A-9"));
    assert!(is_valid_chat_tool_name(&"x".repeat(64)));
    assert!(!is_valid_chat_tool_name(&"x".repeat(65)));
    assert!(!is_valid_chat_tool_name(""));
    assert!(!is_valid_chat_tool_name("a b"));
    assert!(!is_valid_chat_tool_name("a.b"));
    assert!(!is_valid_chat_tool_name("a/b"));
    assert!(!is_valid_chat_tool_name("käse"));
}
