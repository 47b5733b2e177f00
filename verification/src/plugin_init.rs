//! The plugin runtime's init handshake.
//!
//! On start, a plugin reads one line: it must be the host's `Init`
//! request. The plugin always answers with its own `Init` (or
//! `InitRunner`) response first, carrying its verdict on the host's
//! declared protocol version, and only then fails when the verdict was
//! negative — so that the host learns why the plugin exits.

use crate::plugin_api::{
    protocol_version_ok, proto_version, spec_caret_matches, spec_proto_version,
    GeneralPluginResponse, GilbertRequest, ProtoVersion,
};
use vstd::prelude::*;

verus! {

/// Why the plugin runtime gave up.
#[derive(Debug)]
pub enum RunError {
    /// The line transport failed; carries the reported reason.
    Codec(String),
    /// The first line did not parse as an init request.
    UnableToParseInit(String),
    /// The first message was something other than `Init`.
    InitIsntFirstMessage,
    /// The host speaks an incompatible protocol version.
    VersionIncompatible { implemented: ProtoVersion, host: ProtoVersion },
    /// A plugin-specific failure, rendered to text.
    Specific(String),
}

/// How reading the first line can fail, as the transport reports it.
pub enum InitReadError {
    /// The line could not be read.
    Codec(String),
    /// The line was read but did not parse as an init request.
    Parse(String),
}

/// What the plugin runtime does about its first inbound line.
pub enum InitStep<Config> {
    /// The stream ended before any message: exit cleanly.
    StreamEnded,
    /// Reading or parsing failed, or the first message was not `Init`:
    /// fail without responding.
    Refused(RunError),
    /// Hand the config to the builder, print this response, then fail:
    /// the host's protocol version is incompatible. The builder still
    /// runs, exactly as on success, before the verdict goes out.
    RespondAndFail(GeneralPluginResponse<()>, Config, RunError),
    /// Hand the config to the builder, print this response and go on.
    Proceed(GeneralPluginResponse<()>, Config),
}

/// Decides the plugin init handshake from the first inbound line, already
/// read and parsed. The `Init` response always precedes a version
/// failure, and `protocol_version_valid` is exactly the caret check of
/// the host's declared version against this build's protocol version.
pub fn plugin_init_step<Config>(
    first: Option<Result<GilbertRequest<Config, ()>, InitReadError>>,
    version: ProtoVersion,
) -> (r: InitStep<Config>)
    ensures
        match first {
            Option::None => r is StreamEnded,
            Option::Some(Result::Err(e)) => match e {
                InitReadError::Codec(s) => r == InitStep::<Config>::Refused(RunError::Codec(s)),
                InitReadError::Parse(s) => r == InitStep::<Config>::Refused(
                    RunError::UnableToParseInit(s),
                ),
            },
            Option::Some(
                Result::Ok(GilbertRequest::Init { gilbert_version, protocol_version, config }),
            ) => {
                let valid = spec_caret_matches(spec_proto_version(), protocol_version);
                let resp = GeneralPluginResponse::<()>::Init {
                    plugin_version: version,
                    protocol_version_valid: valid,
                };
                if valid {
                    r == InitStep::<Config>::Proceed(resp, config)
                } else {
                    r == InitStep::<Config>::RespondAndFail(
                        resp,
                        config,
                        RunError::VersionIncompatible {
                            implemented: spec_proto_version(),
                            host: protocol_version,
                        },
                    )
                }
            },
            Option::Some(Result::Ok(_)) => r == InitStep::<Config>::Refused(
                RunError::InitIsntFirstMessage,
            ),
        },
{
    match first {
        None => InitStep::StreamEnded,
        Some(Err(InitReadError::Codec(s))) => InitStep::Refused(RunError::Codec(s)),
        Some(Err(InitReadError::Parse(s))) => InitStep::Refused(RunError::UnableToParseInit(s)),
        Some(Ok(GilbertRequest::Init { gilbert_version: _, protocol_version, config })) => {
            let valid = protocol_version_ok(&protocol_version);
            let resp = GeneralPluginResponse::Init {
                plugin_version: version,
                protocol_version_valid: valid,
            };
            if valid {
                InitStep::Proceed(resp, config)
            } else {
                InitStep::RespondAndFail(
                    resp,
                    config,
                    RunError::VersionIncompatible {
                        implemented: proto_version(),
                        host: protocol_version,
                    },
                )
            }
        },
        Some(Ok(_)) => InitStep::Refused(RunError::InitIsntFirstMessage),
    }
}

/// What the runner runtime does about its first inbound line: as for a
/// plain plugin, but the response also names the file extensions the
/// runner accepts.
pub fn runner_init_step<Config>(
    first: Option<Result<GilbertRequest<Config, ()>, InitReadError>>,
    version: ProtoVersion,
    accepted_extensions: Vec<String>,
) -> (r: InitStep<Config>)
    ensures
        match first {
            Option::None => r is StreamEnded,
            Option::Some(Result::Err(e)) => match e {
                InitReadError::Codec(s) => r == InitStep::<Config>::Refused(RunError::Codec(s)),
                InitReadError::Parse(s) => r == InitStep::<Config>::Refused(
                    RunError::UnableToParseInit(s),
                ),
            },
            Option::Some(
                Result::Ok(GilbertRequest::Init { gilbert_version, protocol_version, config }),
            ) => {
                let valid = spec_caret_matches(spec_proto_version(), protocol_version);
                let resp = GeneralPluginResponse::<()>::InitRunner {
                    plugin_version: version,
                    protocol_version_valid: valid,
                    accepted_extensions,
                };
                if valid {
                    r == InitStep::<Config>::Proceed(resp, config)
                } else {
                    r == InitStep::<Config>::RespondAndFail(
                        resp,
                        config,
                        RunError::VersionIncompatible {
                            implemented: spec_proto_version(),
                            host: protocol_version,
                        },
                    )
                }
            },
            Option::Some(Result::Ok(_)) => r == InitStep::<Config>::Refused(
                RunError::InitIsntFirstMessage,
            ),
        },
{
    match first {
        None => InitStep::StreamEnded,
        Some(Err(InitReadError::Codec(s))) => InitStep::Refused(RunError::Codec(s)),
        Some(Err(InitReadError::Parse(s))) => InitStep::Refused(RunError::UnableToParseInit(s)),
        Some(Ok(GilbertRequest::Init { gilbert_version: _, protocol_version, config })) => {
            let valid = protocol_version_ok(&protocol_version);
            let resp = GeneralPluginResponse::InitRunner {
                plugin_version: version,
                protocol_version_valid: valid,
                accepted_extensions,
            };
            if valid {
                InitStep::Proceed(resp, config)
            } else {
                InitStep::RespondAndFail(
                    resp,
                    config,
                    RunError::VersionIncompatible {
                        implemented: proto_version(),
                        host: protocol_version,
                    },
                )
            }
        },
        Some(Ok(_)) => InitStep::Refused(RunError::InitIsntFirstMessage),
    }
}

/// The process exit code each ending maps to: 0 for a clean end of
/// stream, 2 when the first message was not `Init`, 1 for every other
/// failure.
pub fn exit_code_of<Config>(step: &InitStep<Config>) -> (r: i32)
    ensures
        match step {
            InitStep::StreamEnded => r == 0,
            InitStep::Refused(e) => r == (if e is InitIsntFirstMessage {
                2int
            } else {
                1int
            }),
            InitStep::RespondAndFail(_, _, _) => r == 1,
            InitStep::Proceed(_, _) => r == 0,
        },
{
    match step {
        InitStep::StreamEnded => 0,
        InitStep::Refused(RunError::InitIsntFirstMessage) => 2,
        InitStep::Refused(_) => 1,
        InitStep::RespondAndFail(_, _, _) => 1,
        InitStep::Proceed(_, _) => 0,
    }
}

} // verus!
