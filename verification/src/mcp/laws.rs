//! What holds of servers and of calls to them.

use crate::keyed::{keyed_item, law_found_has_the_key, law_put_is_found};
use crate::mcp::client_pool::{
    McpServerEntry, McpServerEntryView, ServerStatusView, call_output, entered,
    law_name_is_read_back, mcp_name, not_reached_yet,
};
use crate::mcp::config::McpServerConfigView;
use crate::text::has_text;
use crate::text_laws::{law_found_is_the_first, lemma_stands_between, stands_in};
use vstd::prelude::*;

verus! {

/// A call is answered by what is known of its server: that it is not connected
/// yet, that it is disconnected, its error, or that there is none of the name.
pub proof fn law_call_is_answered(
    servers: Seq<McpServerEntryView>,
    server: Seq<char>,
    tool: Seq<char>,
)
    requires
        server.len() > 0,
        tool.len() > 0,
        !has_text(server, "__"@),
        server.last() != '_',
    ensures
        ({
            let r = call_output(servers, mcp_name(server, tool));
            match keyed_item::<McpServerEntry>(servers, server) {
                Some(e) => match e.status {
                    ServerStatusView::Connected => stands_in(r, server) && stands_in(r, tool),
                    ServerStatusView::Disconnected => r == "MCP server '"@ + server
                        + "' is disconnected"@,
                    ServerStatusView::Error(m) => stands_in(r, server) && stands_in(r, m),
                },
                None => r == "MCP server '"@ + server + "' not found"@,
            }
        }),
{
    law_name_is_read_back(server, tool);
    let r = call_output(servers, mcp_name(server, tool));
    if let Some(e) = keyed_item::<McpServerEntry>(servers, server) {
        match e.status {
            ServerStatusView::Connected => {
                let a = "MCP tool '"@;
                let b = "' on '"@;
                let c = "' not yet connected"@;
                lemma_stands_between(a, tool, b + server + c, r);
                lemma_stands_between(a + tool + b, server, c, r);
            },
            ServerStatusView::Disconnected => {},
            ServerStatusView::Error(m) => {
                let a = "MCP server '"@;
                let b = "' error: "@;
                lemma_stands_between(a, server, b + m, r);
                lemma_stands_between(a + server + b, m, Seq::empty(), r);
            },
        }
    }
}

/// A name that is no name of a tool is told so.
pub proof fn law_bad_name_is_told(servers: Seq<McpServerEntryView>, name: Seq<char>)
    ensures
        !"mcp__"@.is_prefix_of(name) ==> call_output(servers, name)
            == "Invalid MCP tool name format"@,
{
    law_found_is_the_first(name, "mcp__"@, 0);
}

/// Each server that is set up is entered under its name, without tools and not
/// reached; and no other is.
pub proof fn law_servers_are_entered(
    configs: Seq<(Seq<char>, McpServerConfigView)>,
    name: Seq<char>,
)
    ensures
        keyed_item::<McpServerEntry>(entered(configs), name) is Some <==> exists|i: int|
            0 <= i < configs.len() && (#[trigger] configs[i]).0 == name,
        keyed_item::<McpServerEntry>(entered(configs), name) matches Some(e) ==> e.name == name
            && e.tools.len() == 0 && e.status is Error,
    decreases configs.len(),
{
    if configs.len() == 0 {
        law_found_has_the_key::<McpServerEntry>(entered(configs), name);
    } else {
        let rest = configs.drop_last();
        let last = configs.last();
        law_servers_are_entered(rest, name);
        law_put_is_found::<McpServerEntry>(entered(rest), not_reached_yet(last.0), name);
        assert(configs[configs.len() - 1].0 == last.0);
        if exists|i: int| 0 <= i < rest.len() && (#[trigger] rest[i]).0 == name {
            let i = choose|i: int| 0 <= i < rest.len() && (#[trigger] rest[i]).0 == name;
            assert(configs[i].0 == name);
        }
        if exists|i: int| 0 <= i < configs.len() && (#[trigger] configs[i]).0 == name {
            let i = choose|i: int| 0 <= i < configs.len() && (#[trigger] configs[i]).0 == name;
            if i < rest.len() {
                assert(rest[i].0 == name);
            }
        }
    }
}

} // verus!
