//! How the servers of tools are reached.

use crate::replicate::Replicate;
use vstd::prelude::*;

verus! {

/// A variable that a server is started with.
#[derive(Debug, PartialEq)]
pub struct EnvVariable {
    pub name: String,
    pub value: String,
}

/// What such a variable is.
#[verifier::ext_equal]
pub struct EnvVariableView {
    pub name: Seq<char>,
    pub value: Seq<char>,
}

impl DeepView for EnvVariable {
    type V = EnvVariableView;

    open spec fn deep_view(&self) -> EnvVariableView {
        EnvVariableView {
            name: self.name@,
            value: self.value@,
        }
    }
}

impl Replicate for EnvVariable {
    fn replicate(&self) -> (r: Self) {
        EnvVariable {
            name: self.name.clone(),
            value: self.value.clone(),
        }
    }
}

/// How a server is reached: by a command that starts it, or at an address.
#[derive(Debug, PartialEq)]
pub struct McpServerConfig {
    pub command: Option<String>,
    pub args: Option<Vec<String>>,
    pub env: Option<Vec<EnvVariable>>,
    /// How it is spoken to, where it has an address.
    pub transport_type: Option<String>,
    pub url: Option<String>,
}

/// What such a setup is.
#[verifier::ext_equal]
pub struct McpServerConfigView {
    pub command: Option<Seq<char>>,
    pub args: Option<Seq<Seq<char>>>,
    pub env: Option<Seq<EnvVariableView>>,
    pub transport_type: Option<Seq<char>>,
    pub url: Option<Seq<char>>,
}

impl DeepView for McpServerConfig {
    type V = McpServerConfigView;

    open spec fn deep_view(&self) -> McpServerConfigView {
        McpServerConfigView {
            command: self.command.deep_view(),
            args: self.args.deep_view(),
            env: self.env.deep_view(),
            transport_type: self.transport_type.deep_view(),
            url: self.url.deep_view(),
        }
    }
}

impl Replicate for McpServerConfig {
    fn replicate(&self) -> (r: Self) {
        McpServerConfig {
            command: self.command.replicate(),
            args: self.args.replicate(),
            env: self.env.replicate(),
            transport_type: self.transport_type.replicate(),
            url: self.url.replicate(),
        }
    }
}

} // verus!
