use taskhomie::mcp::{tool_output, McpClient, McpError, McpTool};

fn tool(name: &str, description: Option<&str>) -> McpTool {
    McpTool {
        name: name.to_string(),
        description: description.map(|d| d.to_string()),
        input_schema: "{\"type\":\"object\"}".to_string(),
    }
}

#[test]
fn client_lists_and_finds_tools() {
    let mut c = McpClient::new();
    assert!(!c.is_connected());
    assert!(c.get_tool_names().is_empty());
    c.connected_with(vec![tool("read", Some("Read a file")), tool("write", None)]);
    assert!(c.is_connected());
    assert_eq!(c.get_tool_names(), vec!["read", "write"]);
    assert!(c.has_tool("write"));
    assert!(!c.has_tool("delete"));
    let offered = c.get_tools_for_model();
    assert_eq!(offered.len(), 2);
    assert_eq!(offered[0].description, "Read a file");
    assert_eq!(offered[1].description, "");
    assert_eq!(offered[1].input_schema, "{\"type\":\"object\"}");
    c.disconnect();
    assert!(!c.is_connected());
    assert!(!c.has_tool("read"));
}

#[test]
fn calls_need_a_connection() {
    let c = McpClient::new();
    match c.ensure_connected() {
        Err(e) => assert_eq!(e.message(), "MCP client not initialized"),
        Ok(()) => panic!("not connected"),
    }
}

#[test]
fn mcp_error_messages() {
    assert_eq!(McpError::Spawn("x".to_string()).message(), "Failed to spawn MCP server: x");
    assert_eq!(McpError::ListTools("y".to_string()).message(), "Failed to list tools: y");
    assert_eq!(McpError::CallTool("z".to_string()).message(), "Failed to call tool: z");
}

#[test]
fn tool_output_joins_text_parts() {
    assert_eq!(tool_output(&vec!["a".to_string(), "b".to_string()]), "a\nb");
    assert_eq!(tool_output(&vec![]), "");
    assert_eq!(tool_output(&vec!["only".to_string()]), "only");
}
