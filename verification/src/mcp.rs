//! Client state for an MCP (Model Context Protocol) server: the request
//! IDs it hands out, the tools it discovered, and how tool results read.

use vstd::prelude::*;
use vstd::string::*;
use crate::text::{join, join_strings, str_eq};

verus! {

/// How to start an MCP server.
#[derive(Debug, Clone)]
pub struct McpServerConfig {
    pub name: String,
    pub command: String,
    pub args: Vec<String>,
    /// Environment variables set for the server process.
    pub env: Vec<(String, String)>,
    pub enabled: bool,
}

/// A tool offered by an MCP server.
#[derive(Debug, Clone)]
pub struct McpToolInfo {
    pub name: String,
    pub description: String,
    /// The JSON schema of the tool's input, as text.
    pub input_schema: String,
    pub server_name: String,
}

/// A tool as a server lists it: name, description and input schema, the
/// last two possibly missing.
#[derive(Debug, Clone)]
pub struct ListedTool {
    pub name: String,
    pub description: Option<String>,
    pub input_schema: Option<String>,
}

/// A block of a tool call's result: its type ("text", "image", ...) and
/// its text, if any.
#[derive(Debug, Clone)]
pub struct ContentBlock {
    pub content_type: String,
    pub text: Option<String>,
}

/// Input schema assumed for a tool that lists none.
pub open spec fn empty_object_schema() -> Seq<char> {
    "{\"type\":\"object\",\"properties\":{}}"@
}

/// Client state for one MCP server.
pub struct McpClient {
    name: String,
    config: McpServerConfig,
    connected: bool,
    tools: Vec<McpToolInfo>,
    next_id: u64,
}

/// A listed tool as the client keeps it: missing description empty,
/// missing schema the empty object schema, tagged with the server.
pub open spec fn kept_tool(t: ListedTool, server: Seq<char>, k: McpToolInfo) -> bool {
    &&& k.name@ == t.name@
    &&& k.description@ == (match t.description { Some(d) => d@, None => Seq::empty() })
    &&& k.input_schema@ == (match t.input_schema { Some(s) => s@, None => empty_object_schema() })
    &&& k.server_name@ == server
}

impl McpClient {
    /// The server's name.
    pub closed spec fn server_name(self) -> Seq<char> {
        self.name@
    }

    /// The server's name.
    pub fn name(&self) -> (r: &str)
        ensures
            r@ == self.server_name(),
    {
        self.name.as_str()
    }

    pub closed spec fn cfg(self) -> McpServerConfig {
        self.config
    }

    pub closed spec fn is_connected_spec(self) -> bool {
        self.connected
    }

    pub closed spec fn tool_list(self) -> Seq<McpToolInfo> {
        self.tools@
    }

    /// The ID the next request gets.
    pub closed spec fn next_request_id(self) -> u64 {
        self.next_id
    }

    /// A client for the server, not connected, with no tools; request IDs
    /// start at 1.
    pub fn new(config: McpServerConfig) -> (r: Self)
        ensures
            r.server_name() == config.name@,
            r.cfg() == config,
            !r.is_connected_spec(),
            r.tool_list().len() == 0,
            r.next_request_id() == 1,
    {
        McpClient {
            name: String::from_str(config.name.as_str()),
            config,
            connected: false,
            tools: Vec::new(),
            next_id: 1,
        }
    }

    /// The next request ID.
    pub fn next_id(&mut self) -> (r: u64)
        requires
            old(self).next_request_id() < u64::MAX,
        ensures
            r == old(self).next_request_id(),
            final(self).next_request_id() == r + 1,
            final(self).tool_list() == old(self).tool_list(),
            final(self).is_connected_spec() == old(self).is_connected_spec(),
            final(self).cfg() == old(self).cfg(),
            final(self).server_name() == old(self).server_name(),
    {
        let id = self.next_id;
        self.next_id = self.next_id + 1;
        id
    }

    /// Whether a connection may be attempted: an error for a disabled
    /// server.
    pub fn check_enabled(&self) -> (r: Result<(), String>)
        ensures
            r is Ok <==> self.cfg().enabled,
            r matches Err(e) ==> e@ == "MCP server '"@ + self.server_name() + "' is disabled"@,
    {
        if self.config.enabled {
            Ok(())
        } else {
            let mut e = String::from_str("MCP server '");
            e.append(self.name.as_str());
            e.append("' is disabled");
            Err(e)
        }
    }

    /// Records whether the server process is connected and alive.
    pub fn set_connected(&mut self, connected: bool)
        ensures
            final(self).is_connected_spec() == connected,
            final(self).tool_list() == old(self).tool_list(),
            final(self).next_request_id() == old(self).next_request_id(),
            final(self).cfg() == old(self).cfg(),
            final(self).server_name() == old(self).server_name(),
    {
        self.connected = connected;
    }

    /// Whether the server is connected and alive.
    pub fn is_connected(&self) -> (r: bool)
        ensures
            r == self.is_connected_spec(),
    {
        self.connected
    }

    /// The discovered tools.
    pub fn tools(&self) -> (r: &[McpToolInfo])
        ensures
            r@ == self.tool_list(),
    {
        self.tools.as_slice()
    }

    /// Replaces the tools with those the server listed.
    pub fn set_tools(&mut self, listed: &Vec<ListedTool>)
        ensures
            final(self).tool_list().len() == listed@.len(),
            forall|i: int| 0 <= i < listed@.len() ==> kept_tool(listed@[i], old(self).server_name(), #[trigger] final(self).tool_list()[i]),
            final(self).is_connected_spec() == old(self).is_connected_spec(),
            final(self).next_request_id() == old(self).next_request_id(),
            final(self).cfg() == old(self).cfg(),
            final(self).server_name() == old(self).server_name(),
    {
        let mut tools: Vec<McpToolInfo> = Vec::new();
        let mut i: usize = 0;
        while i < listed.len()
            invariant
                i <= listed.len(),
                tools@.len() == i,
                forall|j: int| 0 <= j < i ==> kept_tool(listed@[j], self.name@, #[trigger] tools@[j]),
            decreases listed.len() - i,
        {
            let t = &listed[i];
            let description = match &t.description {
                Some(d) => String::from_str(d.as_str()),
                None => String::new(),
            };
            let input_schema = match &t.input_schema {
                Some(s) => String::from_str(s.as_str()),
                None => String::from_str("{\"type\":\"object\",\"properties\":{}}"),
            };
            tools.push(McpToolInfo {
                name: String::from_str(t.name.as_str()),
                description,
                input_schema,
                server_name: String::from_str(self.name.as_str()),
            });
            i = i + 1;
        }
        self.tools = tools;
    }

    /// Forgets the connection and the tools.
    pub fn disconnect(&mut self)
        ensures
            !final(self).is_connected_spec(),
            final(self).tool_list().len() == 0,
            final(self).next_request_id() == old(self).next_request_id(),
            final(self).cfg() == old(self).cfg(),
            final(self).server_name() == old(self).server_name(),
    {
        self.connected = false;
        self.tools = Vec::new();
    }
}

/// The texts of the blocks that have one, and of those only of the given
/// type when `only_text` holds.
pub open spec fn block_texts(bs: Seq<ContentBlock>, only_text: bool) -> Seq<Seq<char>>
    decreases bs.len(),
{
    if bs.len() == 0 {
        Seq::empty()
    } else {
        let rest = block_texts(bs.drop_last(), only_text);
        let b = bs.last();
        if (!only_text || b.content_type@ == "text"@) && b.text is Some {
            rest.push(b.text->0@)
        } else {
            rest
        }
    }
}

fn collect_texts(bs: &Vec<ContentBlock>, only_text: bool) -> (r: Vec<String>)
    ensures
        r@.map_values(|s: String| s@) == block_texts(bs@, only_text),
{
    let mut r: Vec<String> = Vec::new();
    let mut i: usize = 0;
    while i < bs.len()
        invariant
            i <= bs.len(),
            r@.map_values(|s: String| s@) == block_texts(bs@.take(i as int), only_text),
        decreases bs.len() - i,
    {
        assert(bs@.take(i as int + 1).drop_last() =~= bs@.take(i as int));
        let b = &bs[i];
        let wanted = !only_text || str_eq(b.content_type.as_str(), "text");
        if wanted {
            if let Some(t) = &b.text {
                let ghost before = r@.map_values(|s: String| s@);
                r.push(String::from_str(t.as_str()));
                assert(r@.map_values(|s: String| s@) =~= before.push(t@));
            }
        }
        i = i + 1;
    }
    assert(bs@.take(bs.len() as int) =~= bs@);
    r
}

/// What a tool call gives back: when the server flags an error, an error
/// with the texts of all blocks; otherwise the texts of the text blocks,
/// one per line.
pub fn tool_call_output(tool_name: &str, is_error: bool, content: &Vec<ContentBlock>) -> (r: Result<String, String>)
    ensures
        is_error ==> (r matches Err(e) && e@ == "Tool '"@ + tool_name@ + "' returned error: "@
            + join(block_texts(content@, false), "\n"@)),
        !is_error ==> (r matches Ok(t) && t@ == join(block_texts(content@, true), "\n"@)),
{
    if is_error {
        let texts = collect_texts(content, false);
        let joined = join_strings(&texts, "\n");
        let mut e = String::from_str("Tool '");
        e.append(tool_name);
        e.append("' returned error: ");
        e.append(joined.as_str());
        Err(e)
    } else {
        let texts = collect_texts(content, true);
        Ok(join_strings(&texts, "\n"))
    }
}

} // verus!
