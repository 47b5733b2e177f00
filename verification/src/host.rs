//! The plugin host: what the server does with each line a plugin prints.
//!
//! The host spawns the plugin with piped standard streams, sends one
//! `Init` line, and then routes every response line: init responses
//! decide whether the plugin is kept or shut down, log responses go to
//! the local logger, and plugin-specific payloads are delivered onward.
//! The spawning and the pipes live outside this crate.

use crate::plugin_api::{GeneralPluginResponse, GilbertRequest, LogMessage, ProtoVersion};
use vstd::prelude::*;

verus! {

/// How loading a plugin can fail.
#[derive(Debug)]
pub enum PluginLoadError {
    /// Spawning or talking to the subprocess failed.
    Io(String),
    /// The line transport failed.
    Codec(String),
    /// A response line did not parse.
    Serde(String),
}

/// Where plugins are loaded from.
pub struct PluginManager {
    pub plugins_dir: String,
}

impl PluginManager {
    pub fn new(plugins_dir: String) -> (r: PluginManager)
        ensures
            r.plugins_dir@ == plugins_dir@,
    {
        PluginManager { plugins_dir }
    }
}

/// What the host must do with one response line from a plugin.
pub enum HostAction<Inner> {
    /// The plugin declared the protocol incompatible: shut it down.
    ShutDown,
    /// The plugin initialized; keep it, with what it declared.
    Accept { plugin_version: ProtoVersion, accepted_extensions: Option<Vec<String>> },
    /// Route this event to the local logger at its stated level.
    EmitLog(LogMessage),
    /// Deliver the plugin-specific payload.
    Deliver(Inner),
}

/// Routes one plugin response. A plugin whose init response carries
/// `protocol_version_valid == false` is incompatible and must be shut
/// down; nothing else ends the session from the host's side.
pub fn route_response<Inner>(resp: GeneralPluginResponse<Inner>) -> (r: HostAction<Inner>)
    ensures
        match resp {
            GeneralPluginResponse::Init { plugin_version, protocol_version_valid } => {
                if protocol_version_valid {
                    r == (HostAction::<Inner>::Accept { plugin_version, accepted_extensions: None })
                } else {
                    r is ShutDown
                }
            },
            GeneralPluginResponse::InitRunner {
                plugin_version,
                protocol_version_valid,
                accepted_extensions,
            } => {
                if protocol_version_valid {
                    r == (HostAction::<Inner>::Accept {
                        plugin_version,
                        accepted_extensions: Some(accepted_extensions),
                    })
                } else {
                    r is ShutDown
                }
            },
            GeneralPluginResponse::Log(m) => r == HostAction::<Inner>::EmitLog(m),
            GeneralPluginResponse::Inner(p) => r == HostAction::<Inner>::Deliver(p),
        },
{
    match resp {
        GeneralPluginResponse::Init { plugin_version, protocol_version_valid } => {
            if protocol_version_valid {
                HostAction::Accept { plugin_version, accepted_extensions: None }
            } else {
                HostAction::ShutDown
            }
        },
        GeneralPluginResponse::InitRunner {
            plugin_version,
            protocol_version_valid,
            accepted_extensions,
        } => {
            if protocol_version_valid {
                HostAction::Accept { plugin_version, accepted_extensions: Some(accepted_extensions) }
            } else {
                HostAction::ShutDown
            }
        },
        GeneralPluginResponse::Log(m) => HostAction::EmitLog(m),
        GeneralPluginResponse::Inner(p) => HostAction::Deliver(p),
    }
}

/// The `Init` request the host sends as its first line, declaring its own
/// version and the protocol version of this build.
pub fn init_request<Config>(gilbert_version: ProtoVersion, config: Config) -> (r: GilbertRequest<
    Config,
    (),
>)
    ensures
        r == (GilbertRequest::<Config, ()>::Init {
            gilbert_version,
            protocol_version: crate::plugin_api::spec_proto_version(),
            config,
        }),
{
    GilbertRequest::Init {
        gilbert_version,
        protocol_version: crate::plugin_api::proto_version(),
        config,
    }
}

} // verus!
