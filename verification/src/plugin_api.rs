//! The host↔plugin stdio protocol's data model.
//!
//! One JSON message per line: requests from the host, responses from the
//! plugin. Protocol compatibility is a caret (`^`) semantic-version check
//! on the version triple each side declares.

use vstd::prelude::*;

verus! {

/// A protocol version: a semantic-versioning triple. The stdio protocol
/// never uses pre-release or build metadata.
#[derive(PartialEq, Eq, Structural, Clone, Copy, Debug)]
pub struct ProtoVersion {
    pub major: u64,
    pub minor: u64,
    pub patch: u64,
}

/// The protocol version this build implements.
pub open spec fn spec_proto_version() -> ProtoVersion {
    ProtoVersion { major: 0, minor: 1, patch: 0 }
}

pub fn proto_version() -> (r: ProtoVersion)
    ensures
        r == spec_proto_version(),
{
    ProtoVersion { major: 0, minor: 1, patch: 0 }
}

/// Caret compatibility: `v` matches `^req` exactly when it is at least
/// `req` and does not change the leftmost non-zero component of `req`.
pub open spec fn spec_caret_matches(req: ProtoVersion, v: ProtoVersion) -> bool {
    if req.major > 0 {
        v.major == req.major && (v.minor > req.minor || (v.minor == req.minor && v.patch
            >= req.patch))
    } else if req.minor > 0 {
        v.major == 0 && v.minor == req.minor && v.patch >= req.patch
    } else {
        v.major == 0 && v.minor == 0 && v.patch == req.patch
    }
}

/// Relies on `semver::VersionReq::parse` and `VersionReq::matches`: for
/// versions without pre-release, the caret requirement `^a.b.c` accepts
/// exactly the versions at least `a.b.c` that keep the leftmost non-zero
/// component of `a.b.c`.
#[verifier::external_body]
pub(crate) fn caret_matches(req: &ProtoVersion, v: &ProtoVersion) -> (r: bool)
    ensures
        r == spec_caret_matches(*req, *v),
{
    let text = format!("^{}.{}.{}", req.major, req.minor, req.patch);
    match semver::VersionReq::parse(&text) {
        Ok(rq) => rq.matches(&semver::Version::new(v.major, v.minor, v.patch)),
        Err(_) => false,
    }
}

/// Whether a declared protocol version is compatible with the version
/// this build implements.
pub fn protocol_version_ok(host: &ProtoVersion) -> (r: bool)
    ensures
        r == spec_caret_matches(spec_proto_version(), *host),
{
    let own = proto_version();
    caret_matches(&own, host)
}

/// The severity of a log event.
#[derive(PartialEq, Eq, Structural, Clone, Copy, Debug)]
pub enum Level {
    Trace,
    Debug,
    Info,
    Warn,
    Error,
}

/// A structured log field value: the JSON-representable primitives the
/// log pipeline stores directly. Values without a direct representation
/// (including floating-point and 128-bit integers) arrive already
/// rendered to text.
pub enum LogValue {
    Bool(bool),
    Int(i64),
    UInt(u64),
    Text(String),
}

#[verifier::ext_equal]
pub enum LogValueView {
    Bool(bool),
    Int(i64),
    UInt(u64),
    Text(Seq<char>),
}

impl View for LogValue {
    type V = LogValueView;

    open spec fn view(&self) -> LogValueView {
        match self {
            LogValue::Bool(b) => LogValueView::Bool(*b),
            LogValue::Int(x) => LogValueView::Int(*x),
            LogValue::UInt(x) => LogValueView::UInt(*x),
            LogValue::Text(s) => LogValueView::Text(s@),
        }
    }
}

/// One captured log event, as the plugin forwards it to the host.
pub struct LogMessage {
    pub level: Level,
    pub name: String,
    pub target: String,
    pub module: Option<String>,
    pub file: Option<String>,
    pub line: Option<u32>,
    pub fields: Vec<(String, LogValue)>,
}

/// Collects the fields of one log event, in record order. Primitive
/// values are stored as their JSON equivalents; everything else arrives
/// rendered via debug formatting.
pub struct FieldsCollector {
    pub fields: Vec<(String, LogValue)>,
}

impl FieldsCollector {
    pub fn new() -> (r: FieldsCollector)
        ensures
            r.fields@ == Seq::<(String, LogValue)>::empty(),
    {
        FieldsCollector { fields: Vec::new() }
    }

    pub fn record_bool(&mut self, name: String, value: bool)
        ensures
            final(self).fields@ == old(self).fields@.push((name, LogValue::Bool(value))),
    {
        self.fields.push((name, LogValue::Bool(value)));
    }

    pub fn record_i64(&mut self, name: String, value: i64)
        ensures
            final(self).fields@ == old(self).fields@.push((name, LogValue::Int(value))),
    {
        self.fields.push((name, LogValue::Int(value)));
    }

    pub fn record_u64(&mut self, name: String, value: u64)
        ensures
            final(self).fields@ == old(self).fields@.push((name, LogValue::UInt(value))),
    {
        self.fields.push((name, LogValue::UInt(value)));
    }

    pub fn record_str(&mut self, name: String, value: String)
        ensures
            final(self).fields@ == old(self).fields@.push((name, LogValue::Text(value))),
    {
        self.fields.push((name, LogValue::Text(value)));
    }

    /// For values with no direct JSON form: stores the rendered text,
    /// which the wire cannot tell from any other string.
    pub fn record_rendered(&mut self, name: String, value: String)
        ensures
            final(self).fields@ == old(self).fields@.push((name, LogValue::Text(value))),
    {
        self.fields.push((name, LogValue::Text(value)));
    }
}

/// A request from the host to the plugin.
pub enum GilbertRequest<Config, Proto> {
    /// The first message on the wire: who the host is and what it runs.
    Init { gilbert_version: ProtoVersion, protocol_version: ProtoVersion, config: Config },
    /// Switch the session to the runner protocol.
    IntoRunnerProtocol,
    /// A plugin-specific payload.
    Inner(Proto),
}

/// A response from the plugin to the host.
pub enum GeneralPluginResponse<Proto> {
    /// The plugin's answer to `Init`, always sent first.
    Init { plugin_version: ProtoVersion, protocol_version_valid: bool },
    /// A runner's answer to `Init`.
    InitRunner {
        plugin_version: ProtoVersion,
        protocol_version_valid: bool,
        accepted_extensions: Vec<String>,
    },
    /// A forwarded log event.
    Log(LogMessage),
    /// A plugin-specific payload.
    Inner(Proto),
}

impl<Proto> GeneralPluginResponse<Proto> {
    /// Maps the plugin-specific payload, leaving every other shape as it
    /// stands.
    pub fn map<U, F: FnOnce(Proto) -> U>(self, mapping: F) -> (r: GeneralPluginResponse<U>)
        requires
            forall|p: Proto| #[trigger] mapping.requires((p,)),
        ensures
            match self {
                GeneralPluginResponse::Init { plugin_version, protocol_version_valid } => r
                    == (GeneralPluginResponse::<U>::Init { plugin_version, protocol_version_valid }),
                GeneralPluginResponse::InitRunner {
                    plugin_version,
                    protocol_version_valid,
                    accepted_extensions,
                } => r == (GeneralPluginResponse::<U>::InitRunner {
                    plugin_version,
                    protocol_version_valid,
                    accepted_extensions,
                }),
                GeneralPluginResponse::Log(m) => r == GeneralPluginResponse::<U>::Log(m),
                GeneralPluginResponse::Inner(p) => r matches GeneralPluginResponse::Inner(u)
                    && mapping.ensures((p,), u),
            },
    {
        match self {
            GeneralPluginResponse::Init { plugin_version, protocol_version_valid } => {
                GeneralPluginResponse::Init { plugin_version, protocol_version_valid }
            },
            GeneralPluginResponse::InitRunner {
                plugin_version,
                protocol_version_valid,
                accepted_extensions,
            } => GeneralPluginResponse::InitRunner {
                plugin_version,
                protocol_version_valid,
                accepted_extensions,
            },
            GeneralPluginResponse::Log(m) => GeneralPluginResponse::Log(m),
            GeneralPluginResponse::Inner(p) => GeneralPluginResponse::Inner(mapping(p)),
        }
    }

    /// Wraps a log event, as the log pipeline feeds the response channel.
    pub fn from_log(value: LogMessage) -> (r: GeneralPluginResponse<Proto>)
        ensures
            r == GeneralPluginResponse::<Proto>::Log(value),
    {
        GeneralPluginResponse::Log(value)
    }
}

} // verus!
