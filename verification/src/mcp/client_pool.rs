//! The servers of tools, and the names of the tools on them.

use crate::json::{Json, JsonView};
use crate::keyed::{find_keyed, keyed_item, keyed_put, put_keyed, Keyed};
use crate::mcp::config::{McpServerConfig, McpServerConfigView};
use crate::replicate::Replicate;
use crate::seqs::{lemma_take_all, lemma_take_step};
use crate::shared::ToolCall;
use crate::text::{
    find_from, has_text, lemma_find_from, occurs_at, split_once, split_once_of, strip_prefix,
    strip_prefix_of,
};
use crate::walk::{flat_map_each, flat_mapped, no_items};
use vstd::prelude::*;

verus! {

// ---------------------------------------------------------------------------
// Names
// ---------------------------------------------------------------------------

/// The name of a tool on a server.
pub open spec fn mcp_name(server: Seq<char>, tool: Seq<char>) -> Seq<char> {
    "mcp__"@ + server + "__"@ + tool
}

/// The server and the tool that a name stands for.
pub open spec fn mcp_parts(name: Seq<char>) -> Option<(Seq<char>, Seq<char>)> {
    match strip_prefix_of(name, "mcp__"@) {
        None => None,
        Some(rest) => match split_once_of(rest, "__"@) {
            None => None,
            Some((server, tool)) => if server.len() == 0 || tool.len() == 0 {
                None
            } else {
                Some((server, tool))
            },
        },
    }
}

/// The server and the tool that a name stands for.
pub fn parse_mcp_tool_name(full_name: &str) -> (r: Option<(String, String)>)
    ensures
        r.deep_view() == mcp_parts(full_name@),
{
    match strip_prefix(full_name, "mcp__") {
        None => None,
        Some(rest) => match split_once(rest.as_str(), "__") {
            None => None,
            Some(p) => if p.0.as_str().is_empty() || p.1.as_str().is_empty() {
                None
            } else {
                Some(p)
            },
        },
    }
}

/// The name of a tool on a server.
pub fn format_mcp_tool_name(server: &str, tool: &str) -> (r: String)
    ensures
        r@ == mcp_name(server@, tool@),
{
    let mut r = "mcp__".to_owned();
    r.append(server);
    r.append("__");
    r.append(tool);
    r
}

/// What a name was made of is read back from it, where the name of the server
/// neither has the mark between the two in it nor ends in a part of it.
pub proof fn law_name_is_read_back(server: Seq<char>, tool: Seq<char>)
    requires
        server.len() > 0,
        tool.len() > 0,
        !has_text(server, "__"@),
        server.last() != '_',
    ensures
        mcp_parts(mcp_name(server, tool)) == Some((server, tool)),
{
    let mark = "__"@;
    let name = mcp_name(server, tool);
    let rest = server + mark + tool;
    reveal_strlit("mcp__");
    reveal_strlit("__");
    let at = server.len() as int;
    assert(name =~= "mcp__"@ + rest);
    assert(name.subrange(0, 5) =~= "mcp__"@);
    assert(occurs_at(name, "mcp__"@, 0));
    assert(name.skip(5) =~= rest);
    assert(rest.subrange(at, at + 2) =~= mark);
    assert(occurs_at(rest, mark, at));
    assert forall|k: int| 0 <= k < at implies !#[trigger] occurs_at(rest, mark, k) by {
        if occurs_at(rest, mark, k) {
            let w = rest.subrange(k, k + 2);
            assert(w[0] == rest[k] && w[1] == rest[k + 1]);
            if k + 1 < at {
                assert(server.subrange(k, k + 2) =~= mark);
                assert(occurs_at(server, mark, k));
            } else {
                assert(rest[k] == server.last());
            }
        }
    }
    lemma_find_from(rest, mark, 0);
    assert(find_from(rest, mark, 0) == Some(at));
    assert(rest.take(at) =~= server);
    assert(rest.skip(at + 2) =~= tool);
}

/// A name that can be read is made again of what was read.
pub proof fn law_read_name_is_made_again(name: Seq<char>)
    requires
        mcp_parts(name) is Some,
    ensures
        mcp_name((mcp_parts(name)->0).0, (mcp_parts(name)->0).1) == name,
{
    let rest = strip_prefix_of(name, "mcp__"@)->0;
    reveal_strlit("mcp__");
    reveal_strlit("__");
    assert(occurs_at(name, "mcp__"@, 0));
    assert(name.subrange(0, 5) =~= "mcp__"@);
    lemma_find_from(rest, "__"@, 0);
    let i = find_from(rest, "__"@, 0)->0;
    assert(rest.subrange(i, i + 2) =~= "__"@);
    assert(rest =~= rest.take(i) + "__"@ + rest.skip(i + 2));
    assert(name =~= "mcp__"@ + rest);
    assert(mcp_name(rest.take(i), rest.skip(i + 2)) =~= name);
}

// ---------------------------------------------------------------------------
// Servers
// ---------------------------------------------------------------------------

/// How it stands with a server.
#[derive(Debug, PartialEq, Eq)]
pub enum ServerStatus {
    Connected,
    Disconnected,
    Error(String),
}

/// What such a state is.
pub enum ServerStatusView {
    Connected,
    Disconnected,
    Error(Seq<char>),
}

impl DeepView for ServerStatus {
    type V = ServerStatusView;

    open spec fn deep_view(&self) -> ServerStatusView {
        match *self {
            ServerStatus::Connected => ServerStatusView::Connected,
            ServerStatus::Disconnected => ServerStatusView::Disconnected,
            ServerStatus::Error(s) => ServerStatusView::Error(s@),
        }
    }
}

impl Replicate for ServerStatus {
    fn replicate(&self) -> (r: Self) {
        match self {
            ServerStatus::Connected => ServerStatus::Connected,
            ServerStatus::Disconnected => ServerStatus::Disconnected,
            ServerStatus::Error(s) => ServerStatus::Error(s.clone()),
        }
    }
}

/// A tool on a server.
#[derive(Debug, PartialEq)]
pub struct ToolDescriptor {
    pub name: String,
    pub description: String,
    pub input_schema: Json,
}

/// What such a tool is.
#[verifier::ext_equal]
pub struct ToolDescriptorView {
    pub name: Seq<char>,
    pub description: Seq<char>,
    pub input_schema: JsonView,
}

impl DeepView for ToolDescriptor {
    type V = ToolDescriptorView;

    open spec fn deep_view(&self) -> ToolDescriptorView {
        ToolDescriptorView {
            name: self.name@,
            description: self.description@,
            input_schema: self.input_schema.deep_view(),
        }
    }
}

impl Replicate for ToolDescriptor {
    fn replicate(&self) -> (r: Self) {
        ToolDescriptor {
            name: self.name.clone(),
            description: self.description.clone(),
            input_schema: self.input_schema.replicate(),
        }
    }
}

/// A server and its tools.
#[derive(Debug, PartialEq)]
pub struct McpServerEntry {
    pub name: String,
    pub tools: Vec<ToolDescriptor>,
    pub status: ServerStatus,
}

/// What such an entry is.
#[verifier::ext_equal]
pub struct McpServerEntryView {
    pub name: Seq<char>,
    pub tools: Seq<ToolDescriptorView>,
    pub status: ServerStatusView,
}

impl DeepView for McpServerEntry {
    type V = McpServerEntryView;

    open spec fn deep_view(&self) -> McpServerEntryView {
        McpServerEntryView {
            name: self.name@,
            tools: self.tools.deep_view(),
            status: self.status.deep_view(),
        }
    }
}

impl Replicate for McpServerEntry {
    fn replicate(&self) -> (r: Self) {
        McpServerEntry {
            name: self.name.clone(),
            tools: self.tools.replicate(),
            status: self.status.replicate(),
        }
    }
}

/// What came of a call of a tool.
#[derive(Debug, PartialEq)]
pub struct ToolExecutionResult {
    pub tool_name: String,
    pub output: String,
    pub is_error: bool,
    pub duration_ms: u64,
}

/// What that is.
#[verifier::ext_equal]
pub struct ToolExecutionResultView {
    pub tool_name: Seq<char>,
    pub output: Seq<char>,
    pub is_error: bool,
    pub duration_ms: u64,
}

impl DeepView for ToolExecutionResult {
    type V = ToolExecutionResultView;

    open spec fn deep_view(&self) -> ToolExecutionResultView {
        ToolExecutionResultView {
            tool_name: self.tool_name@,
            output: self.output@,
            is_error: self.is_error,
            duration_ms: self.duration_ms,
        }
    }
}

impl Replicate for ToolExecutionResult {
    fn replicate(&self) -> (r: Self) {
        ToolExecutionResult {
            tool_name: self.tool_name.clone(),
            output: self.output.clone(),
            is_error: self.is_error,
            duration_ms: self.duration_ms,
        }
    }
}

impl Keyed for McpServerEntry {
    open spec fn key_of(v: McpServerEntryView) -> Seq<char> {
        v.name
    }

    fn key(&self) -> (r: &str) {
        self.name.as_str()
    }
}

/// A server that cannot be reached yet.
pub open spec fn not_reached_yet(name: Seq<char>) -> McpServerEntryView {
    McpServerEntryView {
        name,
        tools: Seq::empty(),
        status: ServerStatusView::Error("MCP client not yet implemented"@),
    }
}

/// The servers once each of those set up was entered.
pub open spec fn entered(
    configs: Seq<(Seq<char>, McpServerConfigView)>,
) -> Seq<McpServerEntryView>
    decreases configs.len(),
{
    if configs.len() == 0 {
        Seq::empty()
    } else {
        keyed_put::<McpServerEntry>(entered(configs.drop_last()), not_reached_yet(configs.last().0))
    }
}

/// What is said of a call of a tool on a server.
pub open spec fn call_output(
    servers: Seq<McpServerEntryView>,
    tool_name: Seq<char>,
) -> Seq<char> {
    match mcp_parts(tool_name) {
        None => "Invalid MCP tool name format"@,
        Some((server, tool)) => match keyed_item::<McpServerEntry>(servers, server) {
            Some(e) => match e.status {
                ServerStatusView::Connected => "MCP tool '"@ + tool + "' on '"@ + server
                    + "' not yet connected"@,
                ServerStatusView::Disconnected => "MCP server '"@ + server
                    + "' is disconnected"@,
                ServerStatusView::Error(m) => "MCP server '"@ + server + "' error: "@ + m,
            },
            None => "MCP server '"@ + server + "' not found"@,
        },
    }
}

/// The servers of tools.
pub struct McpClientPool {
    pub servers: Vec<McpServerEntry>,
}

impl McpClientPool {
    /// No servers yet.
    pub fn new() -> (r: Self)
        ensures
            r.servers.deep_view() == Seq::<McpServerEntryView>::empty(),
    {
        McpClientPool { servers: no_items() }
    }

    /// Enters each of the servers that are set up; none of them can be reached
    /// yet.
    pub fn connect_all(configs: &Vec<(String, McpServerConfig)>) -> (r: Self)
        ensures
            r.servers.deep_view() == entered(configs.deep_view()),
    {
        let mut servers: Vec<McpServerEntry> = no_items();
        let ghost all = configs.deep_view();
        let mut i: usize = 0;
        assert(all.take(0) =~= Seq::<(Seq<char>, McpServerConfigView)>::empty());
        while i < configs.len()
            invariant
                i <= configs@.len(),
                all == configs.deep_view(),
                servers.deep_view() == entered(all.take(i as int)),
            decreases configs@.len() - i,
        {
            proof {
                lemma_take_step(all, i as int);
                assert(all[i as int] == configs@[i as int].deep_view());
            }
            put_keyed(
                &mut servers,
                McpServerEntry {
                    name: configs[i].0.clone(),
                    tools: no_items(),
                    status: ServerStatus::Error("MCP client not yet implemented".to_owned()),
                },
            );
            i = i + 1;
        }
        proof {
            lemma_take_all(all);
        }
        McpClientPool { servers }
    }

    /// The tools of all servers.
    pub fn list_tool_definitions(&self) -> (r: Vec<ToolDescriptor>)
        ensures
            r.deep_view() == flat_mapped(
                self.servers.deep_view(),
                |s: McpServerEntryView| s.tools,
            ),
    {
        let f = |s: &McpServerEntry| -> (r: Vec<ToolDescriptor>)
            ensures r.deep_view() == s.deep_view().tools
        {
            s.tools.replicate()
        };
        flat_map_each(self.servers.as_slice(), f, Ghost(|s: McpServerEntryView| s.tools))
    }

    /// Calls a tool on a server. No server can be reached yet: what comes of it
    /// is an error that says how it stands with the server.
    pub fn execute(&self, tool_call: &ToolCall) -> (r: ToolExecutionResult)
        ensures
            r.deep_view() == (ToolExecutionResultView {
                tool_name: tool_call.deep_view().tool_name,
                output: call_output(
                    self.servers.deep_view(),
                    tool_call.deep_view().tool_name,
                ),
                is_error: true,
                duration_ms: 0,
            }),
    {
        let output = match parse_mcp_tool_name(tool_call.tool_name.as_str()) {
            None => "Invalid MCP tool name format".to_owned(),
            Some((server, tool)) => match find_keyed(&self.servers, server.as_str()) {
                Some(i) => {
                    let e = &self.servers[i];
                    assert(self.servers.deep_view()[i as int] == e.deep_view());
                    match &e.status {
                        ServerStatus::Connected => {
                            let mut t = "MCP tool '".to_owned();
                            t.append(tool.as_str());
                            t.append("' on '");
                            t.append(server.as_str());
                            t.append("' not yet connected");
                            t
                        },
                        ServerStatus::Disconnected => {
                            let mut t = "MCP server '".to_owned();
                            t.append(server.as_str());
                            t.append("' is disconnected");
                            t
                        },
                        ServerStatus::Error(m) => {
                            let mut t = "MCP server '".to_owned();
                            t.append(server.as_str());
                            t.append("' error: ");
                            t.append(m.as_str());
                            t
                        },
                    }
                },
                None => {
                    let mut t = "MCP server '".to_owned();
                    t.append(server.as_str());
                    t.append("' not found");
                    t
                },
            },
        };
        ToolExecutionResult {
            tool_name: tool_call.tool_name.clone(),
            output,
            is_error: true,
            duration_ms: 0,
        }
    }

    /// Lets all servers go.
    pub fn shutdown(&mut self)
        ensures
            final(self).servers.deep_view() == Seq::<McpServerEntryView>::empty(),
    {
        self.servers = no_items();
    }
}

} // verus!
