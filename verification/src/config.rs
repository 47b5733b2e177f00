//! The cluster-wide data model.
//!
//! `GeneralConfig` must be byte-for-byte identical on every peer; the Hello
//! handshake enforces this with the equality functions below. Addresses,
//! file paths and socket addresses are carried as plain text here; parsing
//! and I/O on them happen outside the library.

use vstd::prelude::*;

verus! {

/// A peer address, comparable and diffable by its textual form.
pub struct DiffUrl {
    pub url: String,
}

impl View for DiffUrl {
    type V = Seq<char>;

    open spec fn view(&self) -> Seq<char> {
        self.url@
    }
}

impl DiffUrl {
    /// The difference from `self` to `other`: nothing when they are equal,
    /// otherwise the target value.
    pub fn diff(&self, other: &DiffUrl) -> (r: Option<DiffUrl>)
        ensures
            self@ == other@ ==> r is None,
            self@ != other@ ==> (r matches Some(u) && u@ == other@),
    {
        if self.url == other.url {
            None
        } else {
            Some(DiffUrl { url: other.url.clone() })
        }
    }

    /// Applies a difference: `None` leaves the value unchanged.
    pub fn apply(&mut self, d: &Option<DiffUrl>)
        ensures
            match d {
                Some(u) => final(self)@ == u@,
                None => final(self)@ == old(self)@,
            },
    {
        if let Some(u) = d {
            self.url = u.url.clone();
        }
    }

    /// The identity element of the difference operation: a placeholder
    /// address, in the normalized textual form a parsed URL prints as.
    pub fn identity() -> (r: DiffUrl)
        ensures
            r@ == "https://example.com/"@,
    {
        DiffUrl { url: "https://example.com/".to_owned() }
    }
}

/// A configured peer: its address and its name. Identity is the name,
/// which must equal the authenticated certificate subject.
pub struct Node {
    pub address: DiffUrl,
    pub name: String,
}

#[verifier::ext_equal]
pub struct NodeView {
    pub address: Seq<char>,
    pub name: Seq<char>,
}

impl View for Node {
    type V = NodeView;

    open spec fn view(&self) -> NodeView {
        NodeView { address: self.address@, name: self.name@ }
    }
}

/// The type a task parameter may take.
#[derive(PartialEq, Eq, Structural, Clone, Copy, Debug)]
pub enum ParamType {
    Number,
    Text,
    Object,
    Array,
}

/// A named, typed task parameter.
pub struct Param {
    pub name: String,
    pub ty: ParamType,
}

#[verifier::ext_equal]
pub struct ParamView {
    pub name: Seq<char>,
    pub ty: ParamType,
}

impl View for Param {
    type V = ParamView;

    open spec fn view(&self) -> ParamView {
        ParamView { name: self.name@, ty: self.ty }
    }
}

/// What the cluster knows about one task: its parameters, optional
/// allow/deny lists of node names, and the script that runs it.
pub struct TaskInfo {
    pub params: Vec<Param>,
    pub allowed_nodes: Option<Vec<String>>,
    pub disallowed_nodes: Option<Vec<String>>,
    pub script: String,
}

#[verifier::ext_equal]
pub struct TaskInfoView {
    pub params: Seq<ParamView>,
    pub allowed_nodes: Option<Seq<Seq<char>>>,
    pub disallowed_nodes: Option<Seq<Seq<char>>>,
    pub script: Seq<char>,
}

pub open spec fn opt_text_view(v: &Option<String>) -> Option<Seq<char>> {
    match v {
        Some(s) => Some(s@),
        None => None,
    }
}

/// Compares two optional strings.
pub fn eq_opt_text(a: &Option<String>, b: &Option<String>) -> (r: bool)
    ensures
        r == (opt_text_view(a) == opt_text_view(b)),
{
    match (a, b) {
        (Option::None, Option::None) => true,
        (Option::Some(x), Option::Some(y)) => *x == *y,
        _ => false,
    }
}

pub open spec fn names_view(v: &Option<Vec<String>>) -> Option<Seq<Seq<char>>> {
    match v {
        Some(ns) => Some(ns@.map_values(|s: String| s@)),
        None => None,
    }
}

impl View for TaskInfo {
    type V = TaskInfoView;

    open spec fn view(&self) -> TaskInfoView {
        TaskInfoView {
            params: self.params@.map_values(|p: Param| p@),
            allowed_nodes: names_view(&self.allowed_nodes),
            disallowed_nodes: names_view(&self.disallowed_nodes),
            script: self.script@,
        }
    }
}

/// One entry of the task table: the task's name and its description.
/// The table keeps the order of the configuration file.
pub struct TaskEntry {
    pub name: String,
    pub info: TaskInfo,
}

#[verifier::ext_equal]
pub struct TaskEntryView {
    pub name: Seq<char>,
    pub info: TaskInfoView,
}

impl View for TaskEntry {
    type V = TaskEntryView;

    open spec fn view(&self) -> TaskEntryView {
        TaskEntryView { name: self.name@, info: self.info@ }
    }
}

/// A reference to a plugin, by name alone, by name and version, or by
/// name, repository and optional version.
pub enum Plugin {
    Name(String),
    NameAndVersion { name: String, version: String },
    NameWithRepo { name: String, repo: String, version: Option<String> },
}

#[verifier::ext_equal]
pub enum PluginView {
    Name(Seq<char>),
    NameAndVersion { name: Seq<char>, version: Seq<char> },
    NameWithRepo { name: Seq<char>, repo: Seq<char>, version: Option<Seq<char>> },
}

impl View for Plugin {
    type V = PluginView;

    open spec fn view(&self) -> PluginView {
        match self {
            Plugin::Name(n) => PluginView::Name(n@),
            Plugin::NameAndVersion { name, version } => PluginView::NameAndVersion {
                name: name@,
                version: version@,
            },
            Plugin::NameWithRepo { name, repo, version } => PluginView::NameWithRepo {
                name: name@,
                repo: repo@,
                version: opt_text_view(version),
            },
        }
    }
}

/// The cluster-wide configuration, identical on all peers. The task
/// table comes from a JSON object, so its names are expected unique
/// (`task_names_unique`); `check_task_names_unique` decides it where a
/// configuration enters the system.
pub struct GeneralConfig {
    pub nodes: Vec<Node>,
    pub tasks: Vec<TaskEntry>,
    pub plugins: Vec<Plugin>,
}

#[verifier::ext_equal]
pub struct GeneralConfigView {
    pub nodes: Seq<NodeView>,
    pub tasks: Seq<TaskEntryView>,
    pub plugins: Seq<PluginView>,
}

impl View for GeneralConfig {
    type V = GeneralConfigView;

    open spec fn view(&self) -> GeneralConfigView {
        GeneralConfigView {
            nodes: self.nodes@.map_values(|n: Node| n@),
            tasks: self.tasks@.map_values(|t: TaskEntry| t@),
            plugins: self.plugins@.map_values(|p: Plugin| p@),
        }
    }
}

/// The local-only configuration: certificate files, bind address, own
/// name and own priority. Never gossiped.
pub struct NodeConfig {
    pub ca_file: String,
    pub cert_file: String,
    pub key_file: String,
    pub addr: String,
    pub name: String,
    pub priority: u32,
}

#[verifier::ext_equal]
pub struct NodeConfigView {
    pub ca_file: Seq<char>,
    pub cert_file: Seq<char>,
    pub key_file: Seq<char>,
    pub addr: Seq<char>,
    pub name: Seq<char>,
    pub priority: u32,
}

impl View for NodeConfig {
    type V = NodeConfigView;

    open spec fn view(&self) -> NodeConfigView {
        NodeConfigView {
            ca_file: self.ca_file@,
            cert_file: self.cert_file@,
            key_file: self.key_file@,
            addr: self.addr@,
            name: self.name@,
            priority: self.priority,
        }
    }
}

/// The whole of one node's configuration file.
pub struct Config {
    pub general: GeneralConfig,
    pub node: NodeConfig,
}

#[verifier::ext_equal]
pub struct ConfigView {
    pub general: GeneralConfigView,
    pub node: NodeConfigView,
}

impl View for Config {
    type V = ConfigView;

    open spec fn view(&self) -> ConfigView {
        ConfigView { general: self.general@, node: self.node@ }
    }
}

// ------------------------------------------------------------------
// Equality, decided exactly at the level of the views
// ------------------------------------------------------------------
/// Compares two optional name lists.
pub fn eq_opt_names(a: &Option<Vec<String>>, b: &Option<Vec<String>>) -> (r: bool)
    ensures
        r == (names_view(a) == names_view(b)),
{
    match (a, b) {
        (Option::None, Option::None) => true,
        (Option::Some(xs), Option::Some(ys)) => {
            let r = eq_names(xs, ys);
            proof {
                if r {
                    assert(names_view(a) == names_view(b));
                } else {
                    assert(names_view(a) != names_view(b));
                }
            }
            r
        },
        _ => false,
    }
}

/// Compares two name lists.
pub fn eq_names(a: &Vec<String>, b: &Vec<String>) -> (r: bool)
    ensures
        r == (a@.map_values(|s: String| s@) == b@.map_values(|s: String| s@)),
{
    let ghost av = a@.map_values(|s: String| s@);
    let ghost bv = b@.map_values(|s: String| s@);
    if a.len() != b.len() {
        proof {
            assert(av.len() != bv.len());
        }
        return false;
    }
    let mut k: usize = 0;
    while k < a.len()
        invariant
            a@.len() == b@.len(),
            k <= a@.len(),
            av == a@.map_values(|s: String| s@),
            bv == b@.map_values(|s: String| s@),
            forall|j: int| 0 <= j < k ==> av[j] == bv[j],
        decreases a@.len() - k,
    {
        if !(a[k] == b[k]) {
            proof {
                assert(av[k as int] != bv[k as int]);
            }
            return false;
        }
        k = k + 1;
    }
    proof {
        assert(av =~= bv);
    }
    true
}

/// Compares two peer entries.
pub fn eq_node(a: &Node, b: &Node) -> (r: bool)
    ensures
        r == (a@ == b@),
{
    let r = a.address.url == b.address.url && a.name == b.name;
    proof {
        if a.address.url@ == b.address.url@ && a.name@ == b.name@ {
            assert(a@ =~= b@);
        }
    }
    r
}

/// Compares two task parameters.
pub fn eq_param(a: &Param, b: &Param) -> (r: bool)
    ensures
        r == (a@ == b@),
{
    let r = a.name == b.name && a.ty == b.ty;
    proof {
        if a.name@ == b.name@ && a.ty == b.ty {
            assert(a@ =~= b@);
        }
    }
    r
}

/// Compares two task descriptions.
pub fn eq_task_info(a: &TaskInfo, b: &TaskInfo) -> (r: bool)
    ensures
        r == (a@ == b@),
{
    let ghost av = a@;
    let ghost bv = b@;
    if a.params.len() != b.params.len() {
        proof {
            assert(av.params.len() != bv.params.len());
        }
        return false;
    }
    let mut k: usize = 0;
    while k < a.params.len()
        invariant
            a.params@.len() == b.params@.len(),
            k <= a.params@.len(),
            av == a@,
            bv == b@,
            forall|j: int| 0 <= j < k ==> av.params[j] == bv.params[j],
        decreases a.params@.len() - k,
    {
        if !eq_param(&a.params[k], &b.params[k]) {
            proof {
                assert(av.params[k as int] != bv.params[k as int]);
            }
            return false;
        }
        k = k + 1;
    }
    assert(av.params =~= bv.params);
    let r = eq_opt_names(&a.allowed_nodes, &b.allowed_nodes) && eq_opt_names(
        &a.disallowed_nodes,
        &b.disallowed_nodes,
    ) && a.script == b.script;
    proof {
        if r {
            assert(av =~= bv);
        }
    }
    r
}

/// Compares two task-table entries.
pub fn eq_task_entry(a: &TaskEntry, b: &TaskEntry) -> (r: bool)
    ensures
        r == (a@ == b@),
{
    let r = a.name == b.name && eq_task_info(&a.info, &b.info);
    proof {
        if a.name@ == b.name@ && a.info@ == b.info@ {
            assert(a@ =~= b@);
        }
    }
    r
}

/// Compares two plugin references.
pub fn eq_plugin(a: &Plugin, b: &Plugin) -> (r: bool)
    ensures
        r == (a@ == b@),
{
    match (a, b) {
        (Plugin::Name(x), Plugin::Name(y)) => {
            let r = *x == *y;
            proof {
                if x@ == y@ {
                    assert(a@ =~= b@);
                }
            }
            r
        },
        (
            Plugin::NameAndVersion { name: n1, version: v1 },
            Plugin::NameAndVersion { name: n2, version: v2 },
        ) => {
            let r = *n1 == *n2 && *v1 == *v2;
            proof {
                if n1@ == n2@ && v1@ == v2@ {
                    assert(a@ =~= b@);
                }
            }
            r
        },
        (
            Plugin::NameWithRepo { name: n1, repo: r1, version: v1 },
            Plugin::NameWithRepo { name: n2, repo: r2, version: v2 },
        ) => {
            let vs = eq_opt_text(v1, v2);
            let r = *n1 == *n2 && *r1 == *r2 && vs;
            proof {
                if r {
                    assert(a@ =~= b@);
                } else {
                    assert(a@ != b@);
                }
            }
            r
        },
        _ => false,
    }
}

/// Compares two cluster configurations: true exactly when they agree.
/// This is the check the Hello handshake performs.
pub fn eq_general_config(a: &GeneralConfig, b: &GeneralConfig) -> (r: bool)
    ensures
        r == (a@ == b@),
{
    let ghost av = a@;
    let ghost bv = b@;
    if a.nodes.len() != b.nodes.len() || a.tasks.len() != b.tasks.len() || a.plugins.len()
        != b.plugins.len() {
        proof {
            assert(av.nodes.len() == a.nodes@.len() && bv.nodes.len() == b.nodes@.len());
            assert(av.tasks.len() == a.tasks@.len() && bv.tasks.len() == b.tasks@.len());
            assert(av.plugins.len() == a.plugins@.len() && bv.plugins.len() == b.plugins@.len());
            assert(av != bv);
        }
        return false;
    }
    let mut k: usize = 0;
    while k < a.nodes.len()
        invariant
            a.nodes@.len() == b.nodes@.len(),
            k <= a.nodes@.len(),
            av == a@,
            bv == b@,
            forall|j: int| 0 <= j < k ==> av.nodes[j] == bv.nodes[j],
        decreases a.nodes@.len() - k,
    {
        if !eq_node(&a.nodes[k], &b.nodes[k]) {
            proof {
                assert(av.nodes[k as int] != bv.nodes[k as int]);
            }
            return false;
        }
        k = k + 1;
    }
    assert(av.nodes =~= bv.nodes);
    let mut k: usize = 0;
    while k < a.tasks.len()
        invariant
            a.tasks@.len() == b.tasks@.len(),
            k <= a.tasks@.len(),
            av == a@,
            bv == b@,
            forall|j: int| 0 <= j < k ==> av.tasks[j] == bv.tasks[j],
        decreases a.tasks@.len() - k,
    {
        if !eq_task_entry(&a.tasks[k], &b.tasks[k]) {
            proof {
                assert(av.tasks[k as int] != bv.tasks[k as int]);
            }
            return false;
        }
        k = k + 1;
    }
    assert(av.tasks =~= bv.tasks);
    let mut k: usize = 0;
    while k < a.plugins.len()
        invariant
            a.plugins@.len() == b.plugins@.len(),
            k <= a.plugins@.len(),
            av == a@,
            bv == b@,
            forall|j: int| 0 <= j < k ==> av.plugins[j] == bv.plugins[j],
        decreases a.plugins@.len() - k,
    {
        if !eq_plugin(&a.plugins[k], &b.plugins[k]) {
            proof {
                assert(av.plugins[k as int] != bv.plugins[k as int]);
            }
            return false;
        }
        k = k + 1;
    }
    proof {
        assert(av.plugins =~= bv.plugins);
        assert(av =~= bv);
    }
    true
}


// ------------------------------------------------------------------
// Deep copies, exact at the level of the views
// ------------------------------------------------------------------
/// Copies a name list.
pub fn clone_names(v: &Vec<String>) -> (r: Vec<String>)
    ensures
        r@.map_values(|s: String| s@) == v@.map_values(|s: String| s@),
{
    let mut r: Vec<String> = Vec::new();
    let mut i: usize = 0;
    while i < v.len()
        invariant
            i <= v@.len(),
            r@.map_values(|s: String| s@) == v@.map_values(|s: String| s@).take(i as int),
        decreases v@.len() - i,
    {
        let ghost pre = r@.map_values(|s: String| s@);
        r.push(v[i].clone());
        proof {
            assert(r@.map_values(|s: String| s@) =~= pre.push(v@[i as int]@));
            assert(pre.push(v@[i as int]@) =~= v@.map_values(|s: String| s@).take(i + 1 as int));
        }
        i = i + 1;
    }
    proof {
        assert(v@.map_values(|s: String| s@).take(v@.len() as int) =~= v@.map_values(
            |s: String| s@,
        ));
    }
    r
}

/// Copies an optional name list.
pub fn clone_opt_names(v: &Option<Vec<String>>) -> (r: Option<Vec<String>>)
    ensures
        names_view(&r) == names_view(v),
{
    match v {
        Option::None => None,
        Option::Some(ns) => Some(clone_names(ns)),
    }
}

/// Copies a peer entry.
pub fn clone_node(n: &Node) -> (r: Node)
    ensures
        r@ == n@,
{
    let r = Node { address: DiffUrl { url: n.address.url.clone() }, name: n.name.clone() };
    proof {
        assert(r@ =~= n@);
    }
    r
}

/// Copies a task parameter.
pub fn clone_param(p: &Param) -> (r: Param)
    ensures
        r@ == p@,
{
    let r = Param { name: p.name.clone(), ty: p.ty };
    proof {
        assert(r@ =~= p@);
    }
    r
}

/// Copies a task description.
pub fn clone_task_info(t: &TaskInfo) -> (r: TaskInfo)
    ensures
        r@ == t@,
{
    let mut params: Vec<Param> = Vec::new();
    let mut i: usize = 0;
    while i < t.params.len()
        invariant
            i <= t.params@.len(),
            params@.map_values(|p: Param| p@) == t.params@.map_values(|p: Param| p@).take(i as int),
        decreases t.params@.len() - i,
    {
        let ghost pre = params@.map_values(|p: Param| p@);
        params.push(clone_param(&t.params[i]));
        proof {
            assert(params@.map_values(|p: Param| p@) =~= pre.push(t.params@[i as int]@));
            assert(pre.push(t.params@[i as int]@) =~= t.params@.map_values(|p: Param| p@).take(
                i + 1 as int,
            ));
        }
        i = i + 1;
    }
    let r = TaskInfo {
        params,
        allowed_nodes: clone_opt_names(&t.allowed_nodes),
        disallowed_nodes: clone_opt_names(&t.disallowed_nodes),
        script: t.script.clone(),
    };
    proof {
        assert(t.params@.map_values(|p: Param| p@).take(t.params@.len() as int) =~= t.params@
            .map_values(|p: Param| p@));
        assert(r@ =~= t@);
    }
    r
}

/// Copies a task-table entry.
pub fn clone_task_entry(e: &TaskEntry) -> (r: TaskEntry)
    ensures
        r@ == e@,
{
    let r = TaskEntry { name: e.name.clone(), info: clone_task_info(&e.info) };
    proof {
        assert(r@ =~= e@);
    }
    r
}

/// Copies a plugin reference.
pub fn clone_plugin(p: &Plugin) -> (r: Plugin)
    ensures
        r@ == p@,
{
    match p {
        Plugin::Name(n) => Plugin::Name(n.clone()),
        Plugin::NameAndVersion { name, version } => Plugin::NameAndVersion {
            name: name.clone(),
            version: version.clone(),
        },
        Plugin::NameWithRepo { name, repo, version } => {
            let v = match version {
                Option::None => None,
                Option::Some(x) => Some(x.clone()),
            };
            let r = Plugin::NameWithRepo { name: name.clone(), repo: repo.clone(), version: v };
            proof {
                assert(r@ =~= p@);
            }
            r
        },
    }
}

/// Copies a cluster configuration.
pub fn clone_general_config(c: &GeneralConfig) -> (r: GeneralConfig)
    ensures
        r@ == c@,
{
    let mut nodes: Vec<Node> = Vec::new();
    let mut i: usize = 0;
    while i < c.nodes.len()
        invariant
            i <= c.nodes@.len(),
            nodes@.map_values(|n: Node| n@) == c.nodes@.map_values(|n: Node| n@).take(i as int),
        decreases c.nodes@.len() - i,
    {
        let ghost pre = nodes@.map_values(|n: Node| n@);
        nodes.push(clone_node(&c.nodes[i]));
        proof {
            assert(nodes@.map_values(|n: Node| n@) =~= pre.push(c.nodes@[i as int]@));
            assert(pre.push(c.nodes@[i as int]@) =~= c.nodes@.map_values(|n: Node| n@).take(
                i + 1 as int,
            ));
        }
        i = i + 1;
    }
    let mut tasks: Vec<TaskEntry> = Vec::new();
    let mut i: usize = 0;
    while i < c.tasks.len()
        invariant
            i <= c.tasks@.len(),
            tasks@.map_values(|t: TaskEntry| t@) == c.tasks@.map_values(|t: TaskEntry| t@).take(
                i as int,
            ),
        decreases c.tasks@.len() - i,
    {
        let ghost pre = tasks@.map_values(|t: TaskEntry| t@);
        tasks.push(clone_task_entry(&c.tasks[i]));
        proof {
            assert(tasks@.map_values(|t: TaskEntry| t@) =~= pre.push(c.tasks@[i as int]@));
            assert(pre.push(c.tasks@[i as int]@) =~= c.tasks@.map_values(|t: TaskEntry| t@).take(
                i + 1 as int,
            ));
        }
        i = i + 1;
    }
    let mut plugins: Vec<Plugin> = Vec::new();
    let mut i: usize = 0;
    while i < c.plugins.len()
        invariant
            i <= c.plugins@.len(),
            plugins@.map_values(|p: Plugin| p@) == c.plugins@.map_values(|p: Plugin| p@).take(
                i as int,
            ),
        decreases c.plugins@.len() - i,
    {
        let ghost pre = plugins@.map_values(|p: Plugin| p@);
        plugins.push(clone_plugin(&c.plugins[i]));
        proof {
            assert(plugins@.map_values(|p: Plugin| p@) =~= pre.push(c.plugins@[i as int]@));
            assert(pre.push(c.plugins@[i as int]@) =~= c.plugins@.map_values(|p: Plugin| p@).take(
                i + 1 as int,
            ));
        }
        i = i + 1;
    }
    let r = GeneralConfig { nodes, tasks, plugins };
    proof {
        assert(c.nodes@.map_values(|n: Node| n@).take(c.nodes@.len() as int) =~= c.nodes@
            .map_values(|n: Node| n@));
        assert(c.tasks@.map_values(|t: TaskEntry| t@).take(c.tasks@.len() as int) =~= c.tasks@
            .map_values(|t: TaskEntry| t@));
        assert(c.plugins@.map_values(|p: Plugin| p@).take(c.plugins@.len() as int) =~= c.plugins@
            .map_values(|p: Plugin| p@));
        assert(r@ =~= c@);
    }
    r
}


/// No two entries of the task table share a name: what the original
/// mapping shape of the table guarantees by construction.
pub open spec fn task_names_unique(tasks: Seq<TaskEntryView>) -> bool {
    forall|i: int, j: int|
        0 <= i < j < tasks.len() ==> (#[trigger] tasks[i]).name != (#[trigger] tasks[j]).name
}

/// Decides whether the task table's names are unique.
pub fn check_task_names_unique(c: &GeneralConfig) -> (r: bool)
    ensures
        r == task_names_unique(c@.tasks),
{
    let ghost tv = c@.tasks;
    let mut i: usize = 0;
    while i < c.tasks.len()
        invariant
            i <= c.tasks@.len(),
            tv == c@.tasks,
            tv.len() == c.tasks@.len(),
            forall|x: int, y: int|
                0 <= x < y < tv.len() && x < i ==> (#[trigger] tv[x]).name != (
                #[trigger] tv[y]).name,
        decreases c.tasks@.len() - i,
    {
        let mut j: usize = i + 1;
        while j < c.tasks.len()
            invariant
                i < j,
                j <= c.tasks@.len(),
                tv == c@.tasks,
                tv.len() == c.tasks@.len(),
                forall|y: int| i < y < j ==> (#[trigger] tv[y]).name != tv[i as int].name,
            decreases c.tasks@.len() - j,
        {
            if crate::scheme::str_eq(c.tasks[i].name.as_str(), c.tasks[j].name.as_str()) {
                proof {
                    assert(tv[i as int].name == tv[j as int].name);
                }
                return false;
            }
            j = j + 1;
        }
        i = i + 1;
    }
    true
}

} // verus!
