use ai_brain::json::Json;
use ai_brain::mcp::client_pool::{
    format_mcp_tool_name, parse_mcp_tool_name, McpClientPool, ServerStatus,
};
use ai_brain::mcp::config::McpServerConfig;
use ai_brain::shared::ToolCall;

#[test]
fn parse_mcp_tool_name_valid() {
    let (server, tool) = parse_mcp_tool_name("mcp__context7__query_docs").unwrap();
    assert_eq!(server, "context7");
    assert_eq!(tool, "query_docs");
}

#[test]
fn parse_mcp_tool_name_no_prefix_fails() {
    assert!(parse_mcp_tool_name("regular_tool").is_none());
}

#[test]
fn format_tool_name_roundtrip() {
    let name = format_mcp_tool_name("context7", "query_docs");
    assert_eq!(name, "mcp__context7__query_docs");
}

#[test]
fn new_pool_is_empty() {
    let pool = McpClientPool::new();
    assert!(pool.servers.is_empty());
}

#[test]
fn names_are_read_back_unless_the_server_ends_in_the_mark() {
    for (server, tool) in [("a", "b"), ("a_b", "__c"), ("服务", "工具")] {
        let name = format_mcp_tool_name(server, tool);
        assert_eq!(
            parse_mcp_tool_name(&name),
            Some((server.to_string(), tool.to_string()))
        );
    }
    assert_eq!(
        parse_mcp_tool_name(&format_mcp_tool_name("a_", "b")),
        Some(("a".to_string(), "_b".to_string()))
    );
    assert_eq!(parse_mcp_tool_name("mcp____b"), None);
    assert_eq!(parse_mcp_tool_name("mcp__a__"), None);
    assert_eq!(parse_mcp_tool_name("mcp__a"), None);
}

fn call(name: &str) -> ToolCall {
    ToolCall {
        tool_name: name.to_string(),
        input: Json::Null,
        validated: true,
        validation_id: None,
    }
}

#[test]
fn calls_say_how_it_stands_with_the_server() {
    let config = || McpServerConfig {
        command: Some("npx".to_string()),
        args: None,
        env: None,
        transport_type: None,
        url: None,
    };
    let mut pool = McpClientPool::connect_all(&vec![
        ("a".to_string(), config()),
        ("b".to_string(), config()),
        ("a".to_string(), config()),
    ]);
    assert_eq!(pool.servers.len(), 2);
    assert!(pool.list_tool_definitions().is_empty());
    let r = pool.execute(&call("mcp__a__t"));
    assert_eq!(r.output, "MCP server 'a' error: MCP client not yet implemented");
    assert!(r.is_error);
    pool.servers[0].status = ServerStatus::Connected;
    assert_eq!(
        pool.execute(&call("mcp__a__t")).output,
        "MCP tool 't' on 'a' not yet connected"
    );
    pool.servers[0].status = ServerStatus::Disconnected;
    assert_eq!(pool.execute(&call("mcp__a__t")).output, "MCP server 'a' is disconnected");
    assert_eq!(pool.execute(&call("mcp__c__t")).output, "MCP server 'c' not found");
    assert_eq!(pool.execute(&call("bash")).output, "Invalid MCP tool name format");
    pool.shutdown();
    assert!(pool.servers.is_empty());
}
