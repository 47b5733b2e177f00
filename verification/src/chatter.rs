//! The gossip wire protocol: `ChatterMessage` and its binary codec.
//!
//! Each frame of the mesh carries exactly one encoded message. The
//! spec-level encoder `enc_msg` defines the format; `dec_msg` reads it
//! back, and `lemma_msg_round_trip` proves that decoding an encoded
//! message yields the message again — the codec's round-trip law.

use crate::config::{
    GeneralConfig, GeneralConfigView, Node, NodeView, Param, ParamType, ParamView, Plugin,
    PluginView, TaskEntry, TaskEntryView, TaskInfo, TaskInfoView,
};
use crate::wire::{
    dec_bytes, dec_list, dec_list_body, dec_option, dec_str, dec_u32, dec_u64, dec_u8, enc_bytes, enc_list, enc_option,
    enc_list_body, enc_str, enc_u32, enc_u64, enc_u8, holds_at, lemma_dec_bytes, lemma_dec_list, lemma_dec_option,
    lemma_dec_str, lemma_dec_u32, lemma_dec_u8, lemma_enc_list_body_snoc, lemma_holds_at_split,
    list_elems_read_back, put_bytes, put_str, put_u32, put_u64, put_u8, take_bytes, take_str,
    take_u32, take_u64, take_u8, wf_str,
};
use vstd::prelude::*;

verus! {

/// The not-yet-processed difference payload of a `GeneralConfigUpdate`.
/// The variant is reserved on the wire; receivers ignore it.
pub struct GeneralConfigDiff {
    pub raw: Vec<u8>,
}

impl View for GeneralConfigDiff {
    type V = Seq<u8>;

    open spec fn view(&self) -> Seq<u8> {
        self.raw@
    }
}

/// One message of the typed gossip protocol.
pub enum ChatterMessage {
    /// The first message each side sends: its cluster configuration, its
    /// own priority, and the names it currently sees as connected.
    Hello { config: GeneralConfig, priority: u32, connected: Vec<String> },
    /// The sender's queue depth changed.
    QueueUpdate { length: u32 },
    /// The sender's own priority changed.
    NodeConfigUpdate { priority: u32 },
    /// Reserved: a cluster-configuration difference.
    GeneralConfigUpdate(GeneralConfigDiff),
    Ping(u32),
    Pong(u32),
}

#[verifier::ext_equal]
pub enum ChatterMessageView {
    Hello { config: GeneralConfigView, priority: u32, connected: Seq<Seq<char>> },
    QueueUpdate { length: u32 },
    NodeConfigUpdate { priority: u32 },
    GeneralConfigUpdate(Seq<u8>),
    Ping(u32),
    Pong(u32),
}

impl View for ChatterMessage {
    type V = ChatterMessageView;

    open spec fn view(&self) -> ChatterMessageView {
        match self {
            ChatterMessage::Hello { config, priority, connected } => ChatterMessageView::Hello {
                config: config@,
                priority: *priority,
                connected: connected@.map_values(|s: String| s@),
            },
            ChatterMessage::QueueUpdate { length } => ChatterMessageView::QueueUpdate {
                length: *length,
            },
            ChatterMessage::NodeConfigUpdate { priority } => ChatterMessageView::NodeConfigUpdate {
                priority: *priority,
            },
            ChatterMessage::GeneralConfigUpdate(d) => ChatterMessageView::GeneralConfigUpdate(d@),
            ChatterMessage::Ping(x) => ChatterMessageView::Ping(*x),
            ChatterMessage::Pong(x) => ChatterMessageView::Pong(*x),
        }
    }
}

// ------------------------------------------------------------------
// Spec encoders
// ------------------------------------------------------------------
/// Named element encoders and decoders, so that every mention of a list's
/// element codec is one and the same function value.
pub open spec fn f_str() -> spec_fn(Seq<char>) -> Seq<u8> {
    |s: Seq<char>| enc_str(s)
}

pub open spec fn g_str() -> spec_fn(Seq<u8>, int) -> Option<(Seq<char>, int)> {
    |b: Seq<u8>, i: int| dec_str(b, i)
}

pub open spec fn f_param() -> spec_fn(ParamView) -> Seq<u8> {
    |p: ParamView| enc_param(p)
}

pub open spec fn g_param() -> spec_fn(Seq<u8>, int) -> Option<(ParamView, int)> {
    |b: Seq<u8>, i: int| dec_param(b, i)
}

pub open spec fn f_node() -> spec_fn(NodeView) -> Seq<u8> {
    |n: NodeView| enc_node(n)
}

pub open spec fn g_node() -> spec_fn(Seq<u8>, int) -> Option<(NodeView, int)> {
    |b: Seq<u8>, i: int| dec_node(b, i)
}

pub open spec fn f_task_entry() -> spec_fn(TaskEntryView) -> Seq<u8> {
    |t: TaskEntryView| enc_task_entry(t)
}

pub open spec fn g_task_entry() -> spec_fn(Seq<u8>, int) -> Option<(TaskEntryView, int)> {
    |b: Seq<u8>, i: int| dec_task_entry(b, i)
}

pub open spec fn f_plugin() -> spec_fn(PluginView) -> Seq<u8> {
    |p: PluginView| enc_plugin(p)
}

pub open spec fn g_plugin() -> spec_fn(Seq<u8>, int) -> Option<(PluginView, int)> {
    |b: Seq<u8>, i: int| dec_plugin(b, i)
}

pub open spec fn f_names() -> spec_fn(Seq<Seq<char>>) -> Seq<u8> {
    |ns: Seq<Seq<char>>| enc_names(ns)
}

pub open spec fn g_names() -> spec_fn(Seq<u8>, int) -> Option<(Seq<Seq<char>>, int)> {
    |b: Seq<u8>, i: int| dec_names(b, i)
}

pub open spec fn enc_param_type(t: ParamType) -> Seq<u8> {
    match t {
        ParamType::Number => enc_u8(0),
        ParamType::Text => enc_u8(1),
        ParamType::Object => enc_u8(2),
        ParamType::Array => enc_u8(3),
    }
}

pub open spec fn enc_param(p: ParamView) -> Seq<u8> {
    enc_str(p.name) + enc_param_type(p.ty)
}

pub open spec fn enc_node(n: NodeView) -> Seq<u8> {
    enc_str(n.address) + enc_str(n.name)
}

pub open spec fn enc_names(ns: Seq<Seq<char>>) -> Seq<u8> {
    enc_list(ns, f_str())
}

pub open spec fn enc_task_info(t: TaskInfoView) -> Seq<u8> {
    enc_list(t.params, f_param()) + enc_option(t.allowed_nodes, f_names()) + enc_option(
        t.disallowed_nodes,
        f_names(),
    ) + enc_str(t.script)
}

pub open spec fn enc_task_entry(e: TaskEntryView) -> Seq<u8> {
    enc_str(e.name) + enc_task_info(e.info)
}

pub open spec fn enc_plugin(p: PluginView) -> Seq<u8> {
    match p {
        PluginView::Name(n) => enc_u8(0) + enc_str(n),
        PluginView::NameAndVersion { name, version } => enc_u8(1) + enc_str(name) + enc_str(
            version,
        ),
        PluginView::NameWithRepo { name, repo, version } => enc_u8(2) + enc_str(name) + enc_str(
            repo,
        ) + enc_option(version, f_str()),
    }
}

pub open spec fn enc_general_config(c: GeneralConfigView) -> Seq<u8> {
    enc_list(c.nodes, f_node()) + enc_list(c.tasks, f_task_entry()) + enc_list(
        c.plugins,
        f_plugin(),
    )
}

pub open spec fn enc_msg(m: ChatterMessageView) -> Seq<u8> {
    match m {
        ChatterMessageView::Hello { config, priority, connected } => enc_u8(0)
            + enc_general_config(config) + enc_u32(priority) + enc_names(connected),
        ChatterMessageView::QueueUpdate { length } => enc_u8(1) + enc_u32(length),
        ChatterMessageView::NodeConfigUpdate { priority } => enc_u8(2) + enc_u32(priority),
        ChatterMessageView::GeneralConfigUpdate(d) => enc_u8(3) + enc_bytes(d),
        ChatterMessageView::Ping(x) => enc_u8(4) + enc_u32(x),
        ChatterMessageView::Pong(x) => enc_u8(5) + enc_u32(x),
    }
}

// ------------------------------------------------------------------
// Well-formedness: every piece fits under its length prefix
// ------------------------------------------------------------------
pub open spec fn wf_names(ns: Seq<Seq<char>>) -> bool {
    ns.len() <= u64::MAX && forall|i: int| 0 <= i < ns.len() ==> wf_str(#[trigger] ns[i])
}

pub open spec fn wf_node(n: NodeView) -> bool {
    wf_str(n.address) && wf_str(n.name)
}

pub open spec fn wf_param(p: ParamView) -> bool {
    wf_str(p.name)
}

pub open spec fn wf_task_info(t: TaskInfoView) -> bool {
    &&& t.params.len() <= u64::MAX
    &&& forall|i: int| 0 <= i < t.params.len() ==> wf_param(#[trigger] t.params[i])
    &&& t.allowed_nodes matches Some(ns) ==> wf_names(ns)
    &&& t.disallowed_nodes matches Some(ns) ==> wf_names(ns)
    &&& wf_str(t.script)
}

pub open spec fn wf_task_entry(e: TaskEntryView) -> bool {
    wf_str(e.name) && wf_task_info(e.info)
}

pub open spec fn wf_plugin(p: PluginView) -> bool {
    match p {
        PluginView::Name(n) => wf_str(n),
        PluginView::NameAndVersion { name, version } => wf_str(name) && wf_str(version),
        PluginView::NameWithRepo { name, repo, version } => {
            &&& wf_str(name)
            &&& wf_str(repo)
            &&& version matches Some(v) ==> wf_str(v)
        },
    }
}

pub open spec fn wf_general_config(c: GeneralConfigView) -> bool {
    &&& c.nodes.len() <= u64::MAX
    &&& forall|i: int| 0 <= i < c.nodes.len() ==> wf_node(#[trigger] c.nodes[i])
    &&& c.tasks.len() <= u64::MAX
    &&& forall|i: int| 0 <= i < c.tasks.len() ==> wf_task_entry(#[trigger] c.tasks[i])
    &&& c.plugins.len() <= u64::MAX
    &&& forall|i: int| 0 <= i < c.plugins.len() ==> wf_plugin(#[trigger] c.plugins[i])
}

pub open spec fn wf_msg(m: ChatterMessageView) -> bool {
    match m {
        ChatterMessageView::Hello { config, priority, connected } => wf_general_config(config)
            && wf_names(connected),
        ChatterMessageView::GeneralConfigUpdate(d) => d.len() <= u64::MAX,
        _ => true,
    }
}

// ------------------------------------------------------------------
// Spec decoders
// ------------------------------------------------------------------
pub open spec fn dec_param_type(b: Seq<u8>, i: int) -> Option<(ParamType, int)> {
    match dec_u8(b, i) {
        Some((t, j)) => {
            if t == 0 {
                Some((ParamType::Number, j))
            } else if t == 1 {
                Some((ParamType::Text, j))
            } else if t == 2 {
                Some((ParamType::Object, j))
            } else if t == 3 {
                Some((ParamType::Array, j))
            } else {
                None
            }
        },
        None => None,
    }
}

pub open spec fn dec_param(b: Seq<u8>, i: int) -> Option<(ParamView, int)> {
    match dec_str(b, i) {
        Some((name, j)) => match dec_param_type(b, j) {
            Some((ty, k)) => Some((ParamView { name, ty }, k)),
            None => None,
        },
        None => None,
    }
}

pub open spec fn dec_node(b: Seq<u8>, i: int) -> Option<(NodeView, int)> {
    match dec_str(b, i) {
        Some((address, j)) => match dec_str(b, j) {
            Some((name, k)) => Some((NodeView { address, name }, k)),
            None => None,
        },
        None => None,
    }
}

pub open spec fn dec_names(b: Seq<u8>, i: int) -> Option<(Seq<Seq<char>>, int)> {
    dec_list(b, i, g_str())
}

pub open spec fn dec_task_info(b: Seq<u8>, i: int) -> Option<(TaskInfoView, int)> {
    match dec_list(b, i, g_param()) {
        Some((params, j)) => match dec_option(b, j, g_names()) {
            Some((allowed_nodes, k)) => match dec_option(b, k, g_names()) {
                Some((disallowed_nodes, l)) => match dec_str(b, l) {
                    Some((script, e)) => Some(
                        (TaskInfoView { params, allowed_nodes, disallowed_nodes, script }, e),
                    ),
                    None => None,
                },
                None => None,
            },
            None => None,
        },
        None => None,
    }
}

pub open spec fn dec_task_entry(b: Seq<u8>, i: int) -> Option<(TaskEntryView, int)> {
    match dec_str(b, i) {
        Some((name, j)) => match dec_task_info(b, j) {
            Some((info, k)) => Some((TaskEntryView { name, info }, k)),
            None => None,
        },
        None => None,
    }
}

pub open spec fn dec_plugin(b: Seq<u8>, i: int) -> Option<(PluginView, int)> {
    match dec_u8(b, i) {
        Some((t, j)) => {
            if t == 0 {
                match dec_str(b, j) {
                    Some((n, k)) => Some((PluginView::Name(n), k)),
                    None => None,
                }
            } else if t == 1 {
                match dec_str(b, j) {
                    Some((name, k)) => match dec_str(b, k) {
                        Some((version, l)) => Some((PluginView::NameAndVersion { name, version }, l)),
                        None => None,
                    },
                    None => None,
                }
            } else if t == 2 {
                match dec_str(b, j) {
                    Some((name, k)) => match dec_str(b, k) {
                        Some((repo, l)) => match dec_option(b, l, g_str()) {
                            Some((version, e)) => Some(
                                (PluginView::NameWithRepo { name, repo, version }, e),
                            ),
                            None => None,
                        },
                        None => None,
                    },
                    None => None,
                }
            } else {
                None
            }
        },
        None => None,
    }
}

pub open spec fn dec_general_config(b: Seq<u8>, i: int) -> Option<(GeneralConfigView, int)> {
    match dec_list(b, i, g_node()) {
        Some((nodes, j)) => match dec_list(b, j, g_task_entry()) {
            Some((tasks, k)) => match dec_list(b, k, g_plugin()) {
                Some((plugins, l)) => Some((GeneralConfigView { nodes, tasks, plugins }, l)),
                None => None,
            },
            None => None,
        },
        None => None,
    }
}

pub open spec fn dec_msg(b: Seq<u8>, i: int) -> Option<(ChatterMessageView, int)> {
    match dec_u8(b, i) {
        Some((t, j)) => {
            if t == 0 {
                match dec_general_config(b, j) {
                    Some((config, k)) => match dec_u32(b, k) {
                        Some((priority, l)) => match dec_names(b, l) {
                            Some((connected, e)) => Some(
                                (ChatterMessageView::Hello { config, priority, connected }, e),
                            ),
                            None => None,
                        },
                        None => None,
                    },
                    None => None,
                }
            } else if t == 1 {
                match dec_u32(b, j) {
                    Some((length, k)) => Some((ChatterMessageView::QueueUpdate { length }, k)),
                    None => None,
                }
            } else if t == 2 {
                match dec_u32(b, j) {
                    Some((priority, k)) => Some(
                        (ChatterMessageView::NodeConfigUpdate { priority }, k),
                    ),
                    None => None,
                }
            } else if t == 3 {
                match dec_bytes(b, j) {
                    Some((d, k)) => Some((ChatterMessageView::GeneralConfigUpdate(d), k)),
                    None => None,
                }
            } else if t == 4 {
                match dec_u32(b, j) {
                    Some((x, k)) => Some((ChatterMessageView::Ping(x), k)),
                    None => None,
                }
            } else if t == 5 {
                match dec_u32(b, j) {
                    Some((x, k)) => Some((ChatterMessageView::Pong(x), k)),
                    None => None,
                }
            } else {
                None
            }
        },
        None => None,
    }
}

/// Decoding a whole buffer: one message, consuming every byte.
pub open spec fn msg_dec(b: Seq<u8>) -> Option<ChatterMessageView> {
    match dec_msg(b, 0) {
        Some((m, j)) => {
            if j == b.len() {
                Some(m)
            } else {
                None
            }
        },
        None => None,
    }
}


// ------------------------------------------------------------------
// Round-trip lemmas: a buffer holding an encoding decodes to the
// encoded value
// ------------------------------------------------------------------
pub proof fn lemma_dec_param_type(b: Seq<u8>, i: int, t: ParamType)
    requires
        holds_at(b, i, enc_param_type(t)),
    ensures
        dec_param_type(b, i) == Some((t, i + enc_param_type(t).len())),
{
    match t {
        ParamType::Number => lemma_dec_u8(b, i, 0),
        ParamType::Text => lemma_dec_u8(b, i, 1),
        ParamType::Object => lemma_dec_u8(b, i, 2),
        ParamType::Array => lemma_dec_u8(b, i, 3),
    }
}

pub proof fn lemma_dec_param(b: Seq<u8>, i: int, p: ParamView)
    requires
        holds_at(b, i, enc_param(p)),
        wf_param(p),
    ensures
        dec_param(b, i) == Some((p, i + enc_param(p).len())),
{
    lemma_holds_at_split(b, i, enc_str(p.name), enc_param_type(p.ty));
    lemma_dec_str(b, i, p.name);
    lemma_dec_param_type(b, i + enc_str(p.name).len() as int, p.ty);
    assert(ParamView { name: p.name, ty: p.ty } =~= p);
}

pub proof fn lemma_dec_node(b: Seq<u8>, i: int, n: NodeView)
    requires
        holds_at(b, i, enc_node(n)),
        wf_node(n),
    ensures
        dec_node(b, i) == Some((n, i + enc_node(n).len())),
{
    lemma_holds_at_split(b, i, enc_str(n.address), enc_str(n.name));
    lemma_dec_str(b, i, n.address);
    lemma_dec_str(b, i + enc_str(n.address).len() as int, n.name);
    assert(NodeView { address: n.address, name: n.name } =~= n);
}

pub proof fn lemma_dec_names(b: Seq<u8>, i: int, ns: Seq<Seq<char>>)
    requires
        holds_at(b, i, enc_names(ns)),
        wf_names(ns),
    ensures
        dec_names(b, i) == Some((ns, i + enc_names(ns).len())),
{
    assert(list_elems_read_back(ns, f_str(), g_str())) by {
        assert forall|k: int, b2: Seq<u8>, i2: int|
            #![trigger g_str()(b2, i2), ns[k]]
            0 <= k < ns.len() && holds_at(b2, i2, f_str()(ns[k])) implies g_str()(b2, i2)
            == Some((ns[k], i2 + f_str()(ns[k]).len())) by {
            lemma_dec_str(b2, i2, ns[k]);
        }
    }
    lemma_dec_list(b, i, ns, f_str(), g_str());
}

pub proof fn lemma_dec_task_info(b: Seq<u8>, i: int, t: TaskInfoView)
    requires
        holds_at(b, i, enc_task_info(t)),
        wf_task_info(t),
    ensures
        dec_task_info(b, i) == Some((t, i + enc_task_info(t).len())),
{
    let ea = enc_list(t.params, f_param());
    let eb = enc_option(t.allowed_nodes, f_names());
    let ec = enc_option(t.disallowed_nodes, f_names());
    let ed = enc_str(t.script);
    lemma_holds_at_split(b, i, ea + eb + ec, ed);
    lemma_holds_at_split(b, i, ea + eb, ec);
    lemma_holds_at_split(b, i, ea, eb);
    assert(list_elems_read_back(t.params, f_param(), g_param())) by {
        assert forall|k: int, b2: Seq<u8>, i2: int|
            #![trigger g_param()(b2, i2), t.params[k]]
            0 <= k < t.params.len() && holds_at(b2, i2, f_param()(t.params[k])) implies g_param()(
            b2,
            i2,
        ) == Some((t.params[k], i2 + f_param()(t.params[k]).len())) by {
            lemma_dec_param(b2, i2, t.params[k]);
        }
    }
    lemma_dec_list(b, i, t.params, f_param(), g_param());
    match t.allowed_nodes {
        Some(ns) => {
            assert forall|b2: Seq<u8>, i2: int| holds_at(b2, i2, f_names()(ns)) implies #[trigger] g_names()(
                b2,
                i2,
            ) == Some((ns, i2 + f_names()(ns).len())) by {
                lemma_dec_names(b2, i2, ns);
            }
        },
        None => {},
    }
    lemma_dec_option(b, i + ea.len(), t.allowed_nodes, f_names(), g_names());
    match t.disallowed_nodes {
        Some(ns) => {
            assert forall|b2: Seq<u8>, i2: int| holds_at(b2, i2, f_names()(ns)) implies #[trigger] g_names()(
                b2,
                i2,
            ) == Some((ns, i2 + f_names()(ns).len())) by {
                lemma_dec_names(b2, i2, ns);
            }
        },
        None => {},
    }
    lemma_dec_option(b, i + ea.len() + eb.len(), t.disallowed_nodes, f_names(), g_names());
    lemma_dec_str(b, i + ea.len() + eb.len() + ec.len(), t.script);
    assert(TaskInfoView {
        params: t.params,
        allowed_nodes: t.allowed_nodes,
        disallowed_nodes: t.disallowed_nodes,
        script: t.script,
    } =~= t);
}

pub proof fn lemma_dec_task_entry(b: Seq<u8>, i: int, e: TaskEntryView)
    requires
        holds_at(b, i, enc_task_entry(e)),
        wf_task_entry(e),
    ensures
        dec_task_entry(b, i) == Some((e, i + enc_task_entry(e).len())),
{
    lemma_holds_at_split(b, i, enc_str(e.name), enc_task_info(e.info));
    lemma_dec_str(b, i, e.name);
    lemma_dec_task_info(b, i + enc_str(e.name).len() as int, e.info);
    assert(TaskEntryView { name: e.name, info: e.info } =~= e);
}

pub proof fn lemma_dec_plugin(b: Seq<u8>, i: int, p: PluginView)
    requires
        holds_at(b, i, enc_plugin(p)),
        wf_plugin(p),
    ensures
        dec_plugin(b, i) == Some((p, i + enc_plugin(p).len())),
{
    match p {
        PluginView::Name(n) => {
            lemma_holds_at_split(b, i, enc_u8(0), enc_str(n));
            lemma_dec_u8(b, i, 0);
            lemma_dec_str(b, i + 1, n);
        },
        PluginView::NameAndVersion { name, version } => {
            lemma_holds_at_split(b, i, enc_u8(1) + enc_str(name), enc_str(version));
            lemma_holds_at_split(b, i, enc_u8(1), enc_str(name));
            lemma_dec_u8(b, i, 1);
            lemma_dec_str(b, i + 1, name);
            lemma_dec_str(b, i + 1 + enc_str(name).len(), version);
        },
        PluginView::NameWithRepo { name, repo, version } => {
            let ev = enc_option(version, f_str());
            lemma_holds_at_split(b, i, enc_u8(2) + enc_str(name) + enc_str(repo), ev);
            lemma_holds_at_split(b, i, enc_u8(2) + enc_str(name), enc_str(repo));
            lemma_holds_at_split(b, i, enc_u8(2), enc_str(name));
            lemma_dec_u8(b, i, 2);
            lemma_dec_str(b, i + 1, name);
            lemma_dec_str(b, i + 1 + enc_str(name).len(), repo);
            match version {
                Some(v) => {
                    assert forall|b2: Seq<u8>, i2: int| holds_at(b2, i2, f_str()(v)) implies #[trigger] g_str()(
                        b2,
                        i2,
                    ) == Some((v, i2 + f_str()(v).len())) by {
                        lemma_dec_str(b2, i2, v);
                    }
                },
                None => {},
            }
            lemma_dec_option(
                b,
                i + 1 + enc_str(name).len() + enc_str(repo).len(),
                version,
                f_str(),
                g_str(),
            );
        },
    }
}

pub proof fn lemma_dec_general_config(b: Seq<u8>, i: int, c: GeneralConfigView)
    requires
        holds_at(b, i, enc_general_config(c)),
        wf_general_config(c),
    ensures
        dec_general_config(b, i) == Some((c, i + enc_general_config(c).len())),
{
    let en = enc_list(c.nodes, f_node());
    let et = enc_list(c.tasks, f_task_entry());
    let ep = enc_list(c.plugins, f_plugin());
    lemma_holds_at_split(b, i, en + et, ep);
    lemma_holds_at_split(b, i, en, et);
    assert(list_elems_read_back(c.nodes, f_node(), g_node())) by {
        assert forall|k: int, b2: Seq<u8>, i2: int|
            #![trigger g_node()(b2, i2), c.nodes[k]]
            0 <= k < c.nodes.len() && holds_at(b2, i2, f_node()(c.nodes[k])) implies g_node()(
            b2,
            i2,
        ) == Some((c.nodes[k], i2 + f_node()(c.nodes[k]).len())) by {
            lemma_dec_node(b2, i2, c.nodes[k]);
        }
    }
    lemma_dec_list(b, i, c.nodes, f_node(), g_node());
    assert(list_elems_read_back(c.tasks, f_task_entry(), g_task_entry())) by {
        assert forall|k: int, b2: Seq<u8>, i2: int|
            #![trigger g_task_entry()(b2, i2), c.tasks[k]]
            0 <= k < c.tasks.len() && holds_at(b2, i2, f_task_entry()(c.tasks[k])) implies g_task_entry()(
            b2,
            i2,
        ) == Some((c.tasks[k], i2 + f_task_entry()(c.tasks[k]).len())) by {
            lemma_dec_task_entry(b2, i2, c.tasks[k]);
        }
    }
    lemma_dec_list(b, i + en.len(), c.tasks, f_task_entry(), g_task_entry());
    assert(list_elems_read_back(c.plugins, f_plugin(), g_plugin())) by {
        assert forall|k: int, b2: Seq<u8>, i2: int|
            #![trigger g_plugin()(b2, i2), c.plugins[k]]
            0 <= k < c.plugins.len() && holds_at(b2, i2, f_plugin()(c.plugins[k])) implies g_plugin()(
            b2,
            i2,
        ) == Some((c.plugins[k], i2 + f_plugin()(c.plugins[k]).len())) by {
            lemma_dec_plugin(b2, i2, c.plugins[k]);
        }
    }
    lemma_dec_list(b, i + en.len() + et.len(), c.plugins, f_plugin(), g_plugin());
    assert(GeneralConfigView { nodes: c.nodes, tasks: c.tasks, plugins: c.plugins } =~= c);
}

pub proof fn lemma_dec_msg(b: Seq<u8>, i: int, m: ChatterMessageView)
    requires
        holds_at(b, i, enc_msg(m)),
        wf_msg(m),
    ensures
        dec_msg(b, i) == Some((m, i + enc_msg(m).len())),
{
    vstd::bytes::lemma_auto_spec_u32_to_from_le_bytes();
    vstd::bytes::lemma_auto_spec_u64_to_from_le_bytes();
    match m {
        ChatterMessageView::Hello { config, priority, connected } => {
            let ec = enc_general_config(config);
            let epr = enc_u32(priority);
            let ecn = enc_names(connected);
            lemma_holds_at_split(b, i, enc_u8(0) + ec + epr, ecn);
            lemma_holds_at_split(b, i, enc_u8(0) + ec, epr);
            lemma_holds_at_split(b, i, enc_u8(0), ec);
            lemma_dec_u8(b, i, 0);
            lemma_dec_general_config(b, i + 1, config);
            lemma_dec_u32(b, i + 1 + ec.len(), priority);
            lemma_dec_names(b, i + 1 + ec.len() + epr.len(), connected);
        },
        ChatterMessageView::QueueUpdate { length } => {
            lemma_holds_at_split(b, i, enc_u8(1), enc_u32(length));
            lemma_dec_u8(b, i, 1);
            lemma_dec_u32(b, i + 1, length);
        },
        ChatterMessageView::NodeConfigUpdate { priority } => {
            lemma_holds_at_split(b, i, enc_u8(2), enc_u32(priority));
            lemma_dec_u8(b, i, 2);
            lemma_dec_u32(b, i + 1, priority);
        },
        ChatterMessageView::GeneralConfigUpdate(d) => {
            lemma_holds_at_split(b, i, enc_u8(3), enc_bytes(d));
            lemma_dec_u8(b, i, 3);
            lemma_dec_bytes(b, i + 1, d);
        },
        ChatterMessageView::Ping(x) => {
            lemma_holds_at_split(b, i, enc_u8(4), enc_u32(x));
            lemma_dec_u8(b, i, 4);
            lemma_dec_u32(b, i + 1, x);
        },
        ChatterMessageView::Pong(x) => {
            lemma_holds_at_split(b, i, enc_u8(5), enc_u32(x));
            lemma_dec_u8(b, i, 5);
            lemma_dec_u32(b, i + 1, x);
        },
    }
}

/// The codec's round-trip law: decoding the encoding of any well-formed
/// message yields exactly that message.
pub proof fn lemma_msg_round_trip(m: ChatterMessageView)
    requires
        wf_msg(m),
    ensures
        msg_dec(enc_msg(m)) == Some(m),
{
    let b = enc_msg(m);
    assert(b.subrange(0, b.len() as int) =~= b);
    lemma_dec_msg(b, 0, m);
}


// ------------------------------------------------------------------
// Executable encoder
// ------------------------------------------------------------------
/// Appends the encoding of a parameter type.
pub fn put_param_type(out: &mut Vec<u8>, t: &ParamType)
    ensures
        final(out)@ == old(out)@ + enc_param_type(*t),
{
    match t {
        ParamType::Number => put_u8(out, 0),
        ParamType::Text => put_u8(out, 1),
        ParamType::Object => put_u8(out, 2),
        ParamType::Array => put_u8(out, 3),
    }
}

/// Appends the encoding of a task parameter.
pub fn put_param(out: &mut Vec<u8>, p: &Param)
    ensures
        final(out)@ == old(out)@ + enc_param(p@),
{
    put_str(out, p.name.as_str());
    put_param_type(out, &p.ty);
    assert(out@ =~= old(out)@ + enc_param(p@));
}

/// Appends the encoding of a peer entry.
pub fn put_node(out: &mut Vec<u8>, n: &Node)
    ensures
        final(out)@ == old(out)@ + enc_node(n@),
{
    put_str(out, n.address.url.as_str());
    put_str(out, n.name.as_str());
    assert(out@ =~= old(out)@ + enc_node(n@));
}

/// Appends the encoding of a name list.
pub fn put_names(out: &mut Vec<u8>, ns: &Vec<String>)
    ensures
        final(out)@ == old(out)@ + enc_names(ns@.map_values(|s: String| s@)),
{
    let ghost v = ns@.map_values(|s: String| s@);
    put_u64(out, ns.len() as u64);
    let ghost mid = out@;
    let mut k: usize = 0;
    while k < ns.len()
        invariant
            k <= ns@.len(),
            v == ns@.map_values(|s: String| s@),
            v.len() == ns@.len(),
            mid == old(out)@ + enc_u64(ns@.len() as u64),
            out@ == mid + enc_list_body(v.take(k as int), f_str()),
        decreases ns@.len() - k,
    {
        put_str(out, ns[k].as_str());
        proof {
            lemma_enc_list_body_snoc(v.take(k + 1 as int), f_str());
            assert(v.take(k + 1 as int).drop_last() =~= v.take(k as int));
            assert(v.take(k + 1 as int).last() == v[k as int]);
            assert(out@ =~= mid + enc_list_body(v.take(k + 1 as int), f_str()));
        }
        k = k + 1;
    }
    proof {
        assert(v.take(v.len() as int) =~= v);
        assert(out@ =~= old(out)@ + enc_names(v));
    }
}

/// Appends the encoding of an optional name list.
pub fn put_opt_names(out: &mut Vec<u8>, ns: &Option<Vec<String>>)
    ensures
        final(out)@ == old(out)@ + enc_option(crate::config::names_view(ns), f_names()),
{
    match ns {
        Option::None => {
            put_u8(out, 0);
        },
        Option::Some(xs) => {
            put_u8(out, 1);
            put_names(out, xs);
            assert(out@ =~= old(out)@ + enc_option(crate::config::names_view(ns), f_names()));
        },
    }
}

/// Appends the encoding of a task description.
pub fn put_task_info(out: &mut Vec<u8>, t: &TaskInfo)
    ensures
        final(out)@ == old(out)@ + enc_task_info(t@),
{
    let ghost v = t.params@.map_values(|p: Param| p@);
    put_u64(out, t.params.len() as u64);
    let ghost mid = out@;
    let mut k: usize = 0;
    while k < t.params.len()
        invariant
            k <= t.params@.len(),
            v == t.params@.map_values(|p: Param| p@),
            v.len() == t.params@.len(),
            mid == old(out)@ + enc_u64(t.params@.len() as u64),
            out@ == mid + enc_list_body(v.take(k as int), f_param()),
        decreases t.params@.len() - k,
    {
        put_param(out, &t.params[k]);
        proof {
            lemma_enc_list_body_snoc(v.take(k + 1 as int), f_param());
            assert(v.take(k + 1 as int).drop_last() =~= v.take(k as int));
            assert(v.take(k + 1 as int).last() == v[k as int]);
            assert(out@ =~= mid + enc_list_body(v.take(k + 1 as int), f_param()));
        }
        k = k + 1;
    }
    proof {
        assert(v.take(v.len() as int) =~= v);
        assert(out@ =~= old(out)@ + enc_list(v, f_param()));
    }
    put_opt_names(out, &t.allowed_nodes);
    put_opt_names(out, &t.disallowed_nodes);
    put_str(out, t.script.as_str());
    assert(out@ =~= old(out)@ + enc_task_info(t@));
}

/// Appends the encoding of a task-table entry.
pub fn put_task_entry(out: &mut Vec<u8>, e: &TaskEntry)
    ensures
        final(out)@ == old(out)@ + enc_task_entry(e@),
{
    put_str(out, e.name.as_str());
    put_task_info(out, &e.info);
    assert(out@ =~= old(out)@ + enc_task_entry(e@));
}

/// Appends the encoding of a plugin reference.
pub fn put_plugin(out: &mut Vec<u8>, p: &Plugin)
    ensures
        final(out)@ == old(out)@ + enc_plugin(p@),
{
    match p {
        Plugin::Name(n) => {
            put_u8(out, 0);
            put_str(out, n.as_str());
            assert(out@ =~= old(out)@ + enc_plugin(p@));
        },
        Plugin::NameAndVersion { name, version } => {
            put_u8(out, 1);
            put_str(out, name.as_str());
            put_str(out, version.as_str());
            assert(out@ =~= old(out)@ + enc_plugin(p@));
        },
        Plugin::NameWithRepo { name, repo, version } => {
            put_u8(out, 2);
            put_str(out, name.as_str());
            put_str(out, repo.as_str());
            match version {
                Option::None => {
                    put_u8(out, 0);
                },
                Option::Some(vx) => {
                    put_u8(out, 1);
                    put_str(out, vx.as_str());
                },
            }
            assert(out@ =~= old(out)@ + enc_plugin(p@));
        },
    }
}

/// Appends the encoding of a cluster configuration.
pub fn put_general_config(out: &mut Vec<u8>, c: &GeneralConfig)
    ensures
        final(out)@ == old(out)@ + enc_general_config(c@),
{
    let ghost vn = c.nodes@.map_values(|n: Node| n@);
    put_u64(out, c.nodes.len() as u64);
    let ghost mid1 = out@;
    let mut k: usize = 0;
    while k < c.nodes.len()
        invariant
            k <= c.nodes@.len(),
            vn == c.nodes@.map_values(|n: Node| n@),
            vn.len() == c.nodes@.len(),
            mid1 == old(out)@ + enc_u64(c.nodes@.len() as u64),
            out@ == mid1 + enc_list_body(vn.take(k as int), f_node()),
        decreases c.nodes@.len() - k,
    {
        put_node(out, &c.nodes[k]);
        proof {
            lemma_enc_list_body_snoc(vn.take(k + 1 as int), f_node());
            assert(vn.take(k + 1 as int).drop_last() =~= vn.take(k as int));
            assert(vn.take(k + 1 as int).last() == vn[k as int]);
            assert(out@ =~= mid1 + enc_list_body(vn.take(k + 1 as int), f_node()));
        }
        k = k + 1;
    }
    proof {
        assert(vn.take(vn.len() as int) =~= vn);
        assert(out@ =~= old(out)@ + enc_list(vn, f_node()));
    }
    let ghost vt = c.tasks@.map_values(|t: TaskEntry| t@);
    let ghost pre2 = out@;
    put_u64(out, c.tasks.len() as u64);
    let ghost mid2 = out@;
    let mut k: usize = 0;
    while k < c.tasks.len()
        invariant
            k <= c.tasks@.len(),
            vt == c.tasks@.map_values(|t: TaskEntry| t@),
            vt.len() == c.tasks@.len(),
            mid2 == pre2 + enc_u64(c.tasks@.len() as u64),
            out@ == mid2 + enc_list_body(vt.take(k as int), f_task_entry()),
        decreases c.tasks@.len() - k,
    {
        put_task_entry(out, &c.tasks[k]);
        proof {
            lemma_enc_list_body_snoc(vt.take(k + 1 as int), f_task_entry());
            assert(vt.take(k + 1 as int).drop_last() =~= vt.take(k as int));
            assert(vt.take(k + 1 as int).last() == vt[k as int]);
            assert(out@ =~= mid2 + enc_list_body(vt.take(k + 1 as int), f_task_entry()));
        }
        k = k + 1;
    }
    proof {
        assert(vt.take(vt.len() as int) =~= vt);
        assert(out@ =~= pre2 + enc_list(vt, f_task_entry()));
    }
    let ghost vp = c.plugins@.map_values(|p: Plugin| p@);
    let ghost pre3 = out@;
    put_u64(out, c.plugins.len() as u64);
    let ghost mid3 = out@;
    let mut k: usize = 0;
    while k < c.plugins.len()
        invariant
            k <= c.plugins@.len(),
            vp == c.plugins@.map_values(|p: Plugin| p@),
            vp.len() == c.plugins@.len(),
            mid3 == pre3 + enc_u64(c.plugins@.len() as u64),
            out@ == mid3 + enc_list_body(vp.take(k as int), f_plugin()),
        decreases c.plugins@.len() - k,
    {
        put_plugin(out, &c.plugins[k]);
        proof {
            lemma_enc_list_body_snoc(vp.take(k + 1 as int), f_plugin());
            assert(vp.take(k + 1 as int).drop_last() =~= vp.take(k as int));
            assert(vp.take(k + 1 as int).last() == vp[k as int]);
            assert(out@ =~= mid3 + enc_list_body(vp.take(k + 1 as int), f_plugin()));
        }
        k = k + 1;
    }
    proof {
        assert(vp.take(vp.len() as int) =~= vp);
        assert(out@ =~= pre3 + enc_list(vp, f_plugin()));
        assert(out@ =~= old(out)@ + enc_general_config(c@));
    }
}

/// Encodes one message as the byte sequence a frame carries.
pub fn encode_message(m: &ChatterMessage) -> (r: Vec<u8>)
    ensures
        r@ == enc_msg(m@),
{
    let mut out: Vec<u8> = Vec::new();
    match m {
        ChatterMessage::Hello { config, priority, connected } => {
            put_u8(&mut out, 0);
            put_general_config(&mut out, config);
            put_u32(&mut out, *priority);
            put_names(&mut out, connected);
            assert(out@ =~= enc_msg(m@));
        },
        ChatterMessage::QueueUpdate { length } => {
            put_u8(&mut out, 1);
            put_u32(&mut out, *length);
            assert(out@ =~= enc_msg(m@));
        },
        ChatterMessage::NodeConfigUpdate { priority } => {
            put_u8(&mut out, 2);
            put_u32(&mut out, *priority);
            assert(out@ =~= enc_msg(m@));
        },
        ChatterMessage::GeneralConfigUpdate(d) => {
            put_u8(&mut out, 3);
            put_bytes(&mut out, &d.raw);
            assert(out@ =~= enc_msg(m@));
        },
        ChatterMessage::Ping(x) => {
            put_u8(&mut out, 4);
            put_u32(&mut out, *x);
            assert(out@ =~= enc_msg(m@));
        },
        ChatterMessage::Pong(x) => {
            put_u8(&mut out, 5);
            put_u32(&mut out, *x);
            assert(out@ =~= enc_msg(m@));
        },
    }
    out
}


// ------------------------------------------------------------------
// Executable decoder
// ------------------------------------------------------------------
/// Reads a parameter type.
pub fn take_param_type(b: &Vec<u8>, pos: usize) -> (r: Option<(ParamType, usize)>)
    ensures
        match dec_param_type(b@, pos as int) {
            Some((v, j)) => r matches Some(p) && p.0 == v && p.1 == j,
            None => r is None,
        },
{
    match take_u8(b, pos) {
        None => None,
        Some((t, j)) => {
            if t == 0 {
                Some((ParamType::Number, j))
            } else if t == 1 {
                Some((ParamType::Text, j))
            } else if t == 2 {
                Some((ParamType::Object, j))
            } else if t == 3 {
                Some((ParamType::Array, j))
            } else {
                None
            }
        },
    }
}

/// Reads a task parameter.
pub fn take_param(b: &Vec<u8>, pos: usize) -> (r: Option<(Param, usize)>)
    ensures
        match dec_param(b@, pos as int) {
            Some((v, j)) => r matches Some(p) && p.0@ == v && p.1 == j,
            None => r is None,
        },
{
    match take_str(b, pos) {
        None => None,
        Some((name, j)) => match take_param_type(b, j) {
            None => None,
            Some((ty, k)) => Some((Param { name, ty }, k)),
        },
    }
}

/// Reads a peer entry.
pub fn take_node(b: &Vec<u8>, pos: usize) -> (r: Option<(Node, usize)>)
    ensures
        match dec_node(b@, pos as int) {
            Some((v, j)) => r matches Some(p) && p.0@ == v && p.1 == j,
            None => r is None,
        },
{
    match take_str(b, pos) {
        None => None,
        Some((address, j)) => match take_str(b, j) {
            None => None,
            Some((name, k)) => Some((Node { address: crate::config::DiffUrl { url: address }, name }, k)),
        },
    }
}

/// Reads a name list.
pub fn take_names(b: &Vec<u8>, pos: usize) -> (r: Option<(Vec<String>, usize)>)
    ensures
        match dec_names(b@, pos as int) {
            Some((v, j)) => r matches Some(p) && p.0@.map_values(|s: String| s@) == v && p.1
                == j,
            None => r is None,
        },
{
    match take_u64(b, pos) {
        None => None,
        Some((n, j0)) => {
            let mut acc: Vec<String> = Vec::new();
            let mut k: u64 = 0;
            let mut p: usize = j0;
            proof {
                match dec_list_body(b@, j0 as int, n as int, g_str()) {
                    Some((xs, e)) => {
                        assert(acc@.map_values(|s: String| s@) + xs =~= xs);
                    },
                    None => {},
                }
            }
            while k < n
                invariant
                    k <= n,
                    dec_u64(b@, pos as int) == Some((n, j0 as int)),
                    dec_list_body(b@, j0 as int, n as int, g_str()) == (match dec_list_body(
                        b@,
                        p as int,
                        n - k,
                        g_str(),
                    ) {
                        Some((xs, e)) => Some((acc@.map_values(|s: String| s@) + xs, e)),
                        None => None::<(Seq<Seq<char>>, int)>,
                    }),
                decreases n - k,
            {
                match take_str(b, p) {
                    None => {
                        proof {
                            assert(g_str()(b@, p as int) == dec_str(b@, p as int));
                            assert(dec_list_body(b@, p as int, n - k, g_str()) is None);
                        }
                        return None;
                    },
                    Some((sx, p2)) => {
                        proof {
                            assert(g_str()(b@, p as int) == dec_str(b@, p as int));
                            assert(dec_list_body(b@, p as int, n - k, g_str()) == (match dec_list_body(
                                b@,
                                p2 as int,
                                n - k - 1,
                                g_str(),
                            ) {
                                Some((xs, e)) => Some((seq![sx@] + xs, e)),
                                None => None::<(Seq<Seq<char>>, int)>,
                            }));
                            let accv = acc@.map_values(|s: String| s@);
                            match dec_list_body(b@, p2 as int, n - k - 1, g_str()) {
                                Some((xs, e)) => {
                                    assert(accv + (seq![sx@] + xs) =~= (accv + seq![sx@]) + xs);
                                    assert((acc@.push(sx)).map_values(|s: String| s@) =~= accv
                                        + seq![sx@]);
                                },
                                None => {},
                            }
                        }
                        acc.push(sx);
                        p = p2;
                        k = k + 1;
                    },
                }
            }
            proof {
                assert(dec_list_body(b@, p as int, n - k, g_str()) == Some(
                    (Seq::<Seq<char>>::empty(), p as int),
                ));
                assert(acc@.map_values(|s: String| s@) + Seq::<Seq<char>>::empty() =~= acc@
                    .map_values(|s: String| s@));
            }
            Some((acc, p))
        },
    }
}

/// Reads an optional name list.
pub fn take_opt_names(b: &Vec<u8>, pos: usize) -> (r: Option<(Option<Vec<String>>, usize)>)
    ensures
        match dec_option(b@, pos as int, g_names()) {
            Some((v, j)) => r matches Some(p) && crate::config::names_view(&p.0) == v && p.1
                == j,
            None => r is None,
        },
{
    match take_u8(b, pos) {
        None => None,
        Some((t, j)) => {
            if t == 0 {
                Some((None, j))
            } else if t == 1 {
                match take_names(b, j) {
                    None => None,
                    Some((ns, k)) => Some((Some(ns), k)),
                }
            } else {
                None
            }
        },
    }
}


/// Reads a parameter list.
pub fn take_params(b: &Vec<u8>, pos: usize) -> (r: Option<(Vec<Param>, usize)>)
    ensures
        match dec_list(b@, pos as int, g_param()) {
            Some((v, j)) => r matches Some(p) && p.0@.map_values(|p: Param| p@) == v && p.1 == j,
            None => r is None,
        },
{
    match take_u64(b, pos) {
        None => None,
        Some((n, j0)) => {
            let mut acc: Vec<Param> = Vec::new();
            let mut k: u64 = 0;
            let mut p: usize = j0;
            proof {
                match dec_list_body(b@, j0 as int, n as int, g_param()) {
                    Some((xs, e)) => {
                        assert(acc@.map_values(|p: Param| p@) + xs =~= xs);
                    },
                    None => {},
                }
            }
            while k < n
                invariant
                    k <= n,
                    dec_u64(b@, pos as int) == Some((n, j0 as int)),
                    dec_list_body(b@, j0 as int, n as int, g_param()) == (match dec_list_body(
                        b@,
                        p as int,
                        n - k,
                        g_param(),
                    ) {
                        Some((xs, e)) => Some((acc@.map_values(|p: Param| p@) + xs, e)),
                        None => None::<(Seq<ParamView>, int)>,
                    }),
                decreases n - k,
            {
                match take_param(b, p) {
                    None => {
                        proof {
                            assert(g_param()(b@, p as int) is None);
                            assert(dec_list_body(b@, p as int, n - k, g_param()) is None);
                        }
                        return None;
                    },
                    Some((sx, p2)) => {
                        proof {
                            assert(g_param()(b@, p as int) == Some((sx@, p2 as int)));
                            assert(dec_list_body(b@, p as int, n - k, g_param()) == (match dec_list_body(
                                b@,
                                p2 as int,
                                n - k - 1,
                                g_param(),
                            ) {
                                Some((xs, e)) => Some((seq![sx@] + xs, e)),
                                None => None::<(Seq<ParamView>, int)>,
                            }));
                            let accv = acc@.map_values(|p: Param| p@);
                            match dec_list_body(b@, p2 as int, n - k - 1, g_param()) {
                                Some((xs, e)) => {
                                    assert(accv + (seq![sx@] + xs) =~= (accv + seq![sx@]) + xs);
                                    assert((acc@.push(sx)).map_values(|p: Param| p@) =~= accv + seq![
                                        sx@,
                                    ]);
                                },
                                None => {},
                            }
                        }
                        acc.push(sx);
                        p = p2;
                        k = k + 1;
                    },
                }
            }
            proof {
                assert(dec_list_body(b@, p as int, n - k, g_param()) == Some(
                    (Seq::<ParamView>::empty(), p as int),
                ));
                assert(acc@.map_values(|p: Param| p@) + Seq::<ParamView>::empty() =~= acc@.map_values(
                    |p: Param| p@,
                ));
            }
            Some((acc, p))
        },
    }
}

/// Reads a task description.
pub fn take_task_info(b: &Vec<u8>, pos: usize) -> (r: Option<(TaskInfo, usize)>)
    ensures
        match dec_task_info(b@, pos as int) {
            Some((v, j)) => r matches Some(p) && p.0@ == v && p.1 == j,
            None => r is None,
        },
{
    match take_params(b, pos) {
        None => None,
        Some((params, j)) => match take_opt_names(b, j) {
            None => None,
            Some((allowed_nodes, k)) => match take_opt_names(b, k) {
                None => None,
                Some((disallowed_nodes, l)) => match take_str(b, l) {
                    None => None,
                    Some((script, e)) => {
                        let t = TaskInfo { params, allowed_nodes, disallowed_nodes, script };
                        proof {
                            match dec_task_info(b@, pos as int) {
                                Some((v, j2)) => {
                                    assert(t@ =~= v);
                                },
                                None => {},
                            }
                        }
                        Some((t, e))
                    },
                },
            },
        },
    }
}

/// Reads a task-table entry.
pub fn take_task_entry(b: &Vec<u8>, pos: usize) -> (r: Option<(TaskEntry, usize)>)
    ensures
        match dec_task_entry(b@, pos as int) {
            Some((v, j)) => r matches Some(p) && p.0@ == v && p.1 == j,
            None => r is None,
        },
{
    match take_str(b, pos) {
        None => None,
        Some((name, j)) => match take_task_info(b, j) {
            None => None,
            Some((info, k)) => {
                let e = TaskEntry { name, info };
                proof {
                    match dec_task_entry(b@, pos as int) {
                        Some((v, j2)) => {
                            assert(e@ =~= v);
                        },
                        None => {},
                    }
                }
                Some((e, k))
            },
        },
    }
}

/// Reads a peer list.
pub fn take_nodes(b: &Vec<u8>, pos: usize) -> (r: Option<(Vec<Node>, usize)>)
    ensures
        match dec_list(b@, pos as int, g_node()) {
            Some((v, j)) => r matches Some(p) && p.0@.map_values(|n: Node| n@) == v && p.1 == j,
            None => r is None,
        },
{
    match take_u64(b, pos) {
        None => None,
        Some((n, j0)) => {
            let mut acc: Vec<Node> = Vec::new();
            let mut k: u64 = 0;
            let mut p: usize = j0;
            proof {
                match dec_list_body(b@, j0 as int, n as int, g_node()) {
                    Some((xs, e)) => {
                        assert(acc@.map_values(|n: Node| n@) + xs =~= xs);
                    },
                    None => {},
                }
            }
            while k < n
                invariant
                    k <= n,
                    dec_u64(b@, pos as int) == Some((n, j0 as int)),
                    dec_list_body(b@, j0 as int, n as int, g_node()) == (match dec_list_body(
                        b@,
                        p as int,
                        n - k,
                        g_node(),
                    ) {
                        Some((xs, e)) => Some((acc@.map_values(|n: Node| n@) + xs, e)),
                        None => None::<(Seq<NodeView>, int)>,
                    }),
                decreases n - k,
            {
                match take_node(b, p) {
                    None => {
                        proof {
                            assert(g_node()(b@, p as int) is None);
                            assert(dec_list_body(b@, p as int, n - k, g_node()) is None);
                        }
                        return None;
                    },
                    Some((sx, p2)) => {
                        proof {
                            assert(g_node()(b@, p as int) == Some((sx@, p2 as int)));
                            assert(dec_list_body(b@, p as int, n - k, g_node()) == (match dec_list_body(
                                b@,
                                p2 as int,
                                n - k - 1,
                                g_node(),
                            ) {
                                Some((xs, e)) => Some((seq![sx@] + xs, e)),
                                None => None::<(Seq<NodeView>, int)>,
                            }));
                            let accv = acc@.map_values(|n: Node| n@);
                            match dec_list_body(b@, p2 as int, n - k - 1, g_node()) {
                                Some((xs, e)) => {
                                    assert(accv + (seq![sx@] + xs) =~= (accv + seq![sx@]) + xs);
                                    assert((acc@.push(sx)).map_values(|n: Node| n@) =~= accv + seq![
                                        sx@,
                                    ]);
                                },
                                None => {},
                            }
                        }
                        acc.push(sx);
                        p = p2;
                        k = k + 1;
                    },
                }
            }
            proof {
                assert(dec_list_body(b@, p as int, n - k, g_node()) == Some(
                    (Seq::<NodeView>::empty(), p as int),
                ));
                assert(acc@.map_values(|n: Node| n@) + Seq::<NodeView>::empty() =~= acc@.map_values(
                    |n: Node| n@,
                ));
            }
            Some((acc, p))
        },
    }
}

/// Reads the task table.
pub fn take_tasks(b: &Vec<u8>, pos: usize) -> (r: Option<(Vec<TaskEntry>, usize)>)
    ensures
        match dec_list(b@, pos as int, g_task_entry()) {
            Some((v, j)) => r matches Some(p) && p.0@.map_values(|t: TaskEntry| t@) == v && p.1 == j,
            None => r is None,
        },
{
    match take_u64(b, pos) {
        None => None,
        Some((n, j0)) => {
            let mut acc: Vec<TaskEntry> = Vec::new();
            let mut k: u64 = 0;
            let mut p: usize = j0;
            proof {
                match dec_list_body(b@, j0 as int, n as int, g_task_entry()) {
                    Some((xs, e)) => {
                        assert(acc@.map_values(|t: TaskEntry| t@) + xs =~= xs);
                    },
                    None => {},
                }
            }
            while k < n
                invariant
                    k <= n,
                    dec_u64(b@, pos as int) == Some((n, j0 as int)),
                    dec_list_body(b@, j0 as int, n as int, g_task_entry()) == (match dec_list_body(
                        b@,
                        p as int,
                        n - k,
                        g_task_entry(),
                    ) {
                        Some((xs, e)) => Some((acc@.map_values(|t: TaskEntry| t@) + xs, e)),
                        None => None::<(Seq<TaskEntryView>, int)>,
                    }),
                decreases n - k,
            {
                match take_task_entry(b, p) {
                    None => {
                        proof {
                            assert(g_task_entry()(b@, p as int) is None);
                            assert(dec_list_body(b@, p as int, n - k, g_task_entry()) is None);
                        }
                        return None;
                    },
                    Some((sx, p2)) => {
                        proof {
                            assert(g_task_entry()(b@, p as int) == Some((sx@, p2 as int)));
                            assert(dec_list_body(b@, p as int, n - k, g_task_entry()) == (match dec_list_body(
                                b@,
                                p2 as int,
                                n - k - 1,
                                g_task_entry(),
                            ) {
                                Some((xs, e)) => Some((seq![sx@] + xs, e)),
                                None => None::<(Seq<TaskEntryView>, int)>,
                            }));
                            let accv = acc@.map_values(|t: TaskEntry| t@);
                            match dec_list_body(b@, p2 as int, n - k - 1, g_task_entry()) {
                                Some((xs, e)) => {
                                    assert(accv + (seq![sx@] + xs) =~= (accv + seq![sx@]) + xs);
                                    assert((acc@.push(sx)).map_values(|t: TaskEntry| t@) =~= accv + seq![
                                        sx@,
                                    ]);
                                },
                                None => {},
                            }
                        }
                        acc.push(sx);
                        p = p2;
                        k = k + 1;
                    },
                }
            }
            proof {
                assert(dec_list_body(b@, p as int, n - k, g_task_entry()) == Some(
                    (Seq::<TaskEntryView>::empty(), p as int),
                ));
                assert(acc@.map_values(|t: TaskEntry| t@) + Seq::<TaskEntryView>::empty() =~= acc@.map_values(
                    |t: TaskEntry| t@,
                ));
            }
            Some((acc, p))
        },
    }
}

/// Reads a plugin reference.
pub fn take_plugin(b: &Vec<u8>, pos: usize) -> (r: Option<(Plugin, usize)>)
    ensures
        match dec_plugin(b@, pos as int) {
            Some((v, j)) => r matches Some(p) && p.0@ == v && p.1 == j,
            None => r is None,
        },
{
    match take_u8(b, pos) {
        None => None,
        Some((t, j)) => {
            if t == 0 {
                match take_str(b, j) {
                    None => None,
                    Some((n, k)) => Some((Plugin::Name(n), k)),
                }
            } else if t == 1 {
                match take_str(b, j) {
                    None => None,
                    Some((name, k)) => match take_str(b, k) {
                        None => None,
                        Some((version, l)) => Some((Plugin::NameAndVersion { name, version }, l)),
                    },
                }
            } else if t == 2 {
                match take_str(b, j) {
                    None => None,
                    Some((name, k)) => match take_str(b, k) {
                        None => None,
                        Some((repo, l)) => match take_u8(b, l) {
                            None => None,
                            Some((vt, e)) => {
                                if vt == 0 {
                                    let pl = Plugin::NameWithRepo { name, repo, version: None };
                                    proof {
                                        match dec_plugin(b@, pos as int) {
                                            Some((v, j2)) => {
                                                assert(pl@ =~= v);
                                            },
                                            None => {},
                                        }
                                    }
                                    Some((pl, e))
                                } else if vt == 1 {
                                    match take_str(b, e) {
                                        None => None,
                                        Some((vx, f2)) => {
                                            let pl = Plugin::NameWithRepo {
                                                name,
                                                repo,
                                                version: Some(vx),
                                            };
                                            proof {
                                                match dec_plugin(b@, pos as int) {
                                                    Some((v, j2)) => {
                                                        assert(pl@ =~= v);
                                                    },
                                                    None => {},
                                                }
                                            }
                                            Some((pl, f2))
                                        },
                                    }
                                } else {
                                    None
                                }
                            },
                        },
                    },
                }
            } else {
                None
            }
        },
    }
}

/// Reads the plugin list.
pub fn take_plugins(b: &Vec<u8>, pos: usize) -> (r: Option<(Vec<Plugin>, usize)>)
    ensures
        match dec_list(b@, pos as int, g_plugin()) {
            Some((v, j)) => r matches Some(p) && p.0@.map_values(|p: Plugin| p@) == v && p.1 == j,
            None => r is None,
        },
{
    match take_u64(b, pos) {
        None => None,
        Some((n, j0)) => {
            let mut acc: Vec<Plugin> = Vec::new();
            let mut k: u64 = 0;
            let mut p: usize = j0;
            proof {
                match dec_list_body(b@, j0 as int, n as int, g_plugin()) {
                    Some((xs, e)) => {
                        assert(acc@.map_values(|p: Plugin| p@) + xs =~= xs);
                    },
                    None => {},
                }
            }
            while k < n
                invariant
                    k <= n,
                    dec_u64(b@, pos as int) == Some((n, j0 as int)),
                    dec_list_body(b@, j0 as int, n as int, g_plugin()) == (match dec_list_body(
                        b@,
                        p as int,
                        n - k,
                        g_plugin(),
                    ) {
                        Some((xs, e)) => Some((acc@.map_values(|p: Plugin| p@) + xs, e)),
                        None => None::<(Seq<PluginView>, int)>,
                    }),
                decreases n - k,
            {
                match take_plugin(b, p) {
                    None => {
                        proof {
                            assert(g_plugin()(b@, p as int) is None);
                            assert(dec_list_body(b@, p as int, n - k, g_plugin()) is None);
                        }
                        return None;
                    },
                    Some((sx, p2)) => {
                        proof {
                            assert(g_plugin()(b@, p as int) == Some((sx@, p2 as int)));
                            assert(dec_list_body(b@, p as int, n - k, g_plugin()) == (match dec_list_body(
                                b@,
                                p2 as int,
                                n - k - 1,
                                g_plugin(),
                            ) {
                                Some((xs, e)) => Some((seq![sx@] + xs, e)),
                                None => None::<(Seq<PluginView>, int)>,
                            }));
                            let accv = acc@.map_values(|p: Plugin| p@);
                            match dec_list_body(b@, p2 as int, n - k - 1, g_plugin()) {
                                Some((xs, e)) => {
                                    assert(accv + (seq![sx@] + xs) =~= (accv + seq![sx@]) + xs);
                                    assert((acc@.push(sx)).map_values(|p: Plugin| p@) =~= accv + seq![
                                        sx@,
                                    ]);
                                },
                                None => {},
                            }
                        }
                        acc.push(sx);
                        p = p2;
                        k = k + 1;
                    },
                }
            }
            proof {
                assert(dec_list_body(b@, p as int, n - k, g_plugin()) == Some(
                    (Seq::<PluginView>::empty(), p as int),
                ));
                assert(acc@.map_values(|p: Plugin| p@) + Seq::<PluginView>::empty() =~= acc@.map_values(
                    |p: Plugin| p@,
                ));
            }
            Some((acc, p))
        },
    }
}

/// Reads a cluster configuration.
pub fn take_general_config(b: &Vec<u8>, pos: usize) -> (r: Option<(GeneralConfig, usize)>)
    ensures
        match dec_general_config(b@, pos as int) {
            Some((v, j)) => r matches Some(p) && p.0@ == v && p.1 == j,
            None => r is None,
        },
{
    match take_nodes(b, pos) {
        None => None,
        Some((nodes, j)) => match take_tasks(b, j) {
            None => None,
            Some((tasks, k)) => match take_plugins(b, k) {
                None => None,
                Some((plugins, l)) => {
                    let c = GeneralConfig { nodes, tasks, plugins };
                    proof {
                        match dec_general_config(b@, pos as int) {
                            Some((v, j2)) => {
                                assert(c@ =~= v);
                            },
                            None => {},
                        }
                    }
                    Some((c, l))
                },
            },
        },
    }
}

/// Reads one message.
pub fn take_msg(b: &Vec<u8>, pos: usize) -> (r: Option<(ChatterMessage, usize)>)
    ensures
        match dec_msg(b@, pos as int) {
            Some((v, j)) => r matches Some(p) && p.0@ == v && p.1 == j,
            None => r is None,
        },
{
    match take_u8(b, pos) {
        None => None,
        Some((t, j)) => {
            if t == 0 {
                match take_general_config(b, j) {
                    None => None,
                    Some((config, k)) => match take_u32(b, k) {
                        None => None,
                        Some((priority, l)) => match take_names(b, l) {
                            None => None,
                            Some((connected, e)) => {
                                let m = ChatterMessage::Hello { config, priority, connected };
                                proof {
                                    match dec_msg(b@, pos as int) {
                                        Some((v, j2)) => {
                                            assert(m@ =~= v);
                                        },
                                        None => {},
                                    }
                                }
                                Some((m, e))
                            },
                        },
                    },
                }
            } else if t == 1 {
                match take_u32(b, j) {
                    None => None,
                    Some((length, k)) => Some((ChatterMessage::QueueUpdate { length }, k)),
                }
            } else if t == 2 {
                match take_u32(b, j) {
                    None => None,
                    Some((priority, k)) => Some((ChatterMessage::NodeConfigUpdate { priority }, k)),
                }
            } else if t == 3 {
                match take_bytes(b, j) {
                    None => None,
                    Some((raw, k)) => Some(
                        (ChatterMessage::GeneralConfigUpdate(GeneralConfigDiff { raw }), k),
                    ),
                }
            } else if t == 4 {
                match take_u32(b, j) {
                    None => None,
                    Some((x, k)) => Some((ChatterMessage::Ping(x), k)),
                }
            } else if t == 5 {
                match take_u32(b, j) {
                    None => None,
                    Some((x, k)) => Some((ChatterMessage::Pong(x), k)),
                }
            } else {
                None
            }
        },
    }
}

/// Decodes the whole content of one frame: a single message, consuming
/// every byte.
pub fn decode_message(b: &Vec<u8>) -> (r: Option<ChatterMessage>)
    ensures
        match msg_dec(b@) {
            Some(v) => r matches Some(m) && m@ == v,
            None => r is None,
        },
{
    match take_msg(b, 0) {
        None => None,
        Some((m, j)) => {
            if j == b.len() {
                Some(m)
            } else {
                None
            }
        },
    }
}

} // verus!
