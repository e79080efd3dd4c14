//! The tools of a connected MCP server as the agent offers and calls them.
use vstd::prelude::*;
use crate::text::{chars_of, join, join_chars, str_eq, string_of, lemma_chars_deep_view};

verus! {

/// Why an MCP operation failed.
#[derive(Debug)]
pub enum McpError {
    Spawn(String),
    ListTools(String),
    CallTool(String),
    NotInitialized,
}

/// The message of an `McpError`.
pub open spec fn mcp_error_message(e: McpError) -> Seq<char> {
    match e {
        McpError::Spawn(m) => "Failed to spawn MCP server: "@ + m@,
        McpError::ListTools(m) => "Failed to list tools: "@ + m@,
        McpError::CallTool(m) => "Failed to call tool: "@ + m@,
        McpError::NotInitialized => "MCP client not initialized"@,
    }
}

impl McpError {
    /// The human-readable message of this error.
    pub fn message(&self) -> (r: String)
        ensures
            r@ == mcp_error_message(*self),
    {
        match self {
            McpError::Spawn(m) => {
                let mut r = String::from_str("Failed to spawn MCP server: ");
                r.append(m.as_str());
                r
            },
            McpError::ListTools(m) => {
                let mut r = String::from_str("Failed to list tools: ");
                r.append(m.as_str());
                r
            },
            McpError::CallTool(m) => {
                let mut r = String::from_str("Failed to call tool: ");
                r.append(m.as_str());
                r
            },
            McpError::NotInitialized => String::from_str("MCP client not initialized"),
        }
    }
}

/// A tool the server lists: its name, its description if any, and its
/// input schema as JSON text.
#[derive(Debug, Clone)]
pub struct McpTool {
    pub name: String,
    pub description: Option<String>,
    pub input_schema: String,
}

/// A tool as the model is offered it: the description defaults to empty.
#[derive(Debug, Clone)]
pub struct OfferedTool {
    pub name: String,
    pub description: String,
    pub input_schema: String,
}

/// The names of the tools, in order.
pub open spec fn tool_names(tools: Seq<McpTool>) -> Seq<Seq<char>> {
    tools.map_values(|t: McpTool| t.name@)
}

/// Whether the client is connected, and the tools the server listed.
pub struct McpClient {
    connected: bool,
    tools: Vec<McpTool>,
}

impl McpClient {
    /// Whether a server is connected.
    pub closed spec fn connected(&self) -> bool {
        self.connected
    }

    /// The tools the connected server listed.
    pub closed spec fn tools(&self) -> Seq<McpTool> {
        self.tools@
    }

    pub fn new() -> (r: Self)
        ensures
            !r.connected(),
            r.tools() == Seq::<McpTool>::empty(),
    {
        McpClient { connected: false, tools: Vec::new() }
    }

    /// Records a connected server and the tools it listed.
    pub fn connected_with(&mut self, tools: Vec<McpTool>)
        ensures
            final(self).connected(),
            final(self).tools() == tools@,
    {
        self.tools = tools;
        self.connected = true;
    }

    /// Forgets the server and its tools.
    pub fn disconnect(&mut self)
        ensures
            !final(self).connected(),
            final(self).tools() == Seq::<McpTool>::empty(),
    {
        self.connected = false;
        self.tools = Vec::new();
    }

    pub fn is_connected(&self) -> (r: bool)
        ensures
            r == self.connected(),
    {
        self.connected
    }

    /// The names of the listed tools, in order.
    pub fn get_tool_names(&self) -> (r: Vec<String>)
        ensures
            r.deep_view() == tool_names(self.tools()),
    {
        let mut r: Vec<String> = Vec::new();
        let mut i: usize = 0;
        while i < self.tools.len()
            invariant
                i <= self.tools@.len(),
                r.deep_view() == tool_names(self.tools@).take(i as int),
            decreases self.tools@.len() - i,
        {
            let ghost before = r.deep_view();
            r.push(self.tools[i].name.clone());
            assert(r.deep_view() =~= before.push(self.tools@[i as int].name@));
            assert(tool_names(self.tools@).take(i + 1) =~= tool_names(self.tools@).take(i as int).push(
                self.tools@[i as int].name@,
            ));
            i = i + 1;
        }
        assert(tool_names(self.tools@).take(self.tools@.len() as int) =~= tool_names(self.tools@));
        r
    }

    /// Whether the server listed a tool of this name.
    pub fn has_tool(&self, name: &str) -> (r: bool)
        ensures
            r == tool_names(self.tools()).contains(name@),
    {
        let mut i: usize = 0;
        while i < self.tools.len()
            invariant
                i <= self.tools@.len(),
                forall|k: int| 0 <= k < i ==> self.tools@[k].name@ != name@,
            decreases self.tools@.len() - i,
        {
            if str_eq(self.tools[i].name.as_str(), name) {
                assert(tool_names(self.tools@)[i as int] == name@);
                return true;
            }
            i = i + 1;
        }
        proof {
            if tool_names(self.tools@).contains(name@) {
                let k = choose|k: int| 0 <= k < tool_names(self.tools@).len() && tool_names(self.tools@)[k] == name@;
                assert(self.tools@[k].name@ != name@);
            }
        }
        false
    }

    /// The listed tools as the model is offered them.
    pub fn get_tools_for_model(&self) -> (r: Vec<OfferedTool>)
        ensures
            r@.len() == self.tools().len(),
            forall|i: int| 0 <= i < r@.len() ==> {
                let t = #[trigger] self.tools()[i];
                &&& r@[i].name@ == t.name@
                &&& r@[i].description@ == match t.description {
                    Some(d) => d@,
                    None => Seq::<char>::empty(),
                }
                &&& r@[i].input_schema@ == t.input_schema@
            },
    {
        let mut r: Vec<OfferedTool> = Vec::new();
        let mut i: usize = 0;
        while i < self.tools.len()
            invariant
                i <= self.tools@.len(),
                r@.len() == i,
                forall|k: int| 0 <= k < i ==> {
                    let t = #[trigger] self.tools@[k];
                    &&& r@[k].name@ == t.name@
                    &&& r@[k].description@ == match t.description {
                        Some(d) => d@,
                        None => Seq::<char>::empty(),
                    }
                    &&& r@[k].input_schema@ == t.input_schema@
                },
            decreases self.tools@.len() - i,
        {
            let t = &self.tools[i];
            let description = match &t.description {
                Some(d) => d.clone(),
                None => String::new(),
            };
            r.push(OfferedTool { name: t.name.clone(), description, input_schema: t.input_schema.clone() });
            i = i + 1;
        }
        r
    }

    /// Checks that a server is connected before a call.
    pub fn ensure_connected(&self) -> (r: Result<(), McpError>)
        ensures
            r is Ok <==> self.connected(),
            r matches Err(e) ==> e is NotInitialized,
    {
        if self.connected {
            Ok(())
        } else {
            Err(McpError::NotInitialized)
        }
    }
}

/// The output of a tool call: its text parts joined by newlines.
pub fn tool_output(texts: &Vec<String>) -> (r: String)
    ensures
        r@ == join(texts.deep_view(), "\n"@),
{
    let mut parts: Vec<Vec<char>> = Vec::new();
    let mut i: usize = 0;
    while i < texts.len()
        invariant
            i <= texts@.len(),
            parts.deep_view() == texts.deep_view().take(i as int),
        decreases texts@.len() - i,
    {
        let c = chars_of(texts[i].as_str());
        let ghost before = parts.deep_view();
        parts.push(c);
        proof {
            lemma_chars_deep_view(c);
            assert(parts.deep_view() =~= before.push(c@));
            assert(texts.deep_view().take(i + 1) =~= texts.deep_view().take(i as int).push(texts@[i as int]@));
        }
        i = i + 1;
    }
    assert(texts.deep_view().take(texts@.len() as int) =~= texts.deep_view());
    let sep = chars_of("\n");
    let out = join_chars(&parts, &sep);
    string_of(&out)
}

} // verus!
