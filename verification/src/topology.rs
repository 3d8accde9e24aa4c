//! The graph of components that an example runs through.
//!
//! The control plane leads from the user over CubeAPI and CubeMaster to a Cubelet,
//! which boots the MicroVM. The data plane leads from CubeAPI over CubeProxy to
//! `envd` and the process that it starts: `envd` is reached through a tunnel, not
//! over the MicroVM that contains it.

use vstd::prelude::*;
use vstd::string::StringExecFns;

use crate::text;

verus! {

// ----------------------------------------------------------------------- types

/// A component of the graph.
#[derive(Clone)]
pub struct TopologyNode {
    pub id: String,
    pub label: String,
    /// "control" | "data".
    pub plane: String,
    /// "user" | "control" | "data" | "vm" | "store".
    pub kind: String,
    pub description: String,
}

/// A connection between two components, named by their identifiers.
#[derive(Clone)]
pub struct TopologyEdge {
    pub from: String,
    pub to: String,
    pub label: String,
    pub plane: String,
}

/// The graph as a response carries it.
#[derive(Clone)]
pub struct TopologyGraph {
    pub nodes: Vec<TopologyNode>,
    pub edges: Vec<TopologyEdge>,
}

/// The graph of a scenario, before a run has marked it.
#[derive(Clone)]
pub struct TopologyTemplate {
    pub nodes: Vec<TopologyNode>,
    pub edges: Vec<TopologyEdge>,
}

/// What a [`TopologyNode`] holds.
pub struct NodeModel {
    pub id: Seq<char>,
    pub label: Seq<char>,
    pub plane: Seq<char>,
    pub kind: Seq<char>,
    pub description: Seq<char>,
}

/// What a [`TopologyEdge`] holds.
pub struct EdgeModel {
    pub from: Seq<char>,
    pub to: Seq<char>,
    pub label: Seq<char>,
    pub plane: Seq<char>,
}

/// What a graph holds.
pub struct GraphModel {
    pub nodes: Seq<NodeModel>,
    pub edges: Seq<EdgeModel>,
}

impl TopologyNode {
    pub open spec fn model(self) -> NodeModel {
        node_model(self.id@, self.label@, self.plane@, self.kind@, self.description@)
    }
}

impl TopologyEdge {
    pub open spec fn model(self) -> EdgeModel {
        EdgeModel {
            from: self.from@,
            to: self.to@,
            label: self.label@,
            plane: self.plane@,
        }
    }
}

/// What a row of nodes holds.
pub open spec fn nodes_model(nodes: Seq<TopologyNode>) -> Seq<NodeModel> {
    nodes.map_values(|node: TopologyNode| node.model())
}

/// What a row of edges holds.
pub open spec fn edges_model(edges: Seq<TopologyEdge>) -> Seq<EdgeModel> {
    edges.map_values(|edge: TopologyEdge| edge.model())
}

impl TopologyGraph {
    pub open spec fn model(self) -> GraphModel {
        GraphModel { nodes: nodes_model(self.nodes@), edges: edges_model(self.edges@) }
    }
}

impl TopologyTemplate {
    pub open spec fn model(self) -> GraphModel {
        GraphModel { nodes: nodes_model(self.nodes@), edges: edges_model(self.edges@) }
    }
}

pub open spec fn node_model(
    id: Seq<char>,
    label: Seq<char>,
    plane: Seq<char>,
    kind: Seq<char>,
    description: Seq<char>,
) -> NodeModel {
    NodeModel { id, label, plane, kind, description }
}

// ------------------------------------------------------------------ components

/// The components that the graphs are made of.
#[derive(Clone, Copy)]
pub enum Component {
    User,
    CubeApi,
    CubeMaster,
    Cubelet,
    CubeProxy,
    MicroVm,
    Envd,
    Runner,
    CubeVs,
    HostDir,
    Chromium,
    Playwright,
    Snapshot,
    Sidecar,
    Nginx,
    /// One of the MicroVMs of a benchmark.
    BenchVm(u8),
}

impl Component {
    /// The node that stands for a component.
    pub open spec fn node_model(self) -> NodeModel {
        match self {
            Component::User => node_model(
                "user"@,
                "User Script"@,
                "control"@,
                "user"@,
                "The example invocation triggered when you click Run."@,
            ),
            Component::CubeApi => node_model(
                "cubeapi"@,
                "CubeAPI :3000"@,
                "control"@,
                "control"@,
                "HTTP gateway: validates requests, schedules sandbox creation, proxies data."@,
            ),
            Component::CubeMaster => node_model(
                "cubemaster"@,
                "CubeMaster"@,
                "control"@,
                "control"@,
                "Scheduler: picks a Cubelet node based on template & load."@,
            ),
            Component::Cubelet => node_model(
                "cubelet"@,
                "Cubelet"@,
                "control"@,
                "control"@,
                "Per-node agent: manages the full MicroVM lifecycle."@,
            ),
            Component::CubeProxy => node_model(
                "cubeproxy"@,
                "CubeProxy"@,
                "data"@,
                "control"@,
                "TLS-terminating reverse proxy: forwards via WSS tunnel to in-sandbox envd."@,
            ),
            Component::MicroVm => node_model(
                "microvm"@,
                "KVM MicroVM"@,
                "data"@,
                "vm"@,
                "QEMU/KVM MicroVM: sandbox isolation boundary running envd and the workload."@,
            ),
            Component::Envd => node_model(
                "envd"@,
                "envd :49983"@,
                "data"@,
                "data"@,
                "In-sandbox daemon: exposes Jupyter kernel, filesystem and shell."@,
            ),
            Component::Runner => node_model(
                "runner"@,
                "Python / Shell"@,
                "data"@,
                "data"@,
                "The interpreter process that runs the example code, forked by envd."@,
            ),
            Component::CubeVs => node_model(
                "cubevs"@,
                "CubeVS (eBPF)"@,
                "data"@,
                "control"@,
                "eBPF datapath enforcing allow/deny rules on the guest's veth."@,
            ),
            Component::HostDir => node_model(
                "hostdir"@,
                "Host directory"@,
                "data"@,
                "store"@,
                "Local directory bind-mounted into the MicroVM at boot."@,
            ),
            Component::Chromium => node_model(
                "chromium"@,
                "Chromium :9000"@,
                "data"@,
                "data"@,
                "Headless Chromium inside the guest with CDP enabled."@,
            ),
            Component::Playwright => node_model(
                "playwright"@,
                "Playwright (CDP)"@,
                "data"@,
                "data"@,
                "Python client driving Chromium over the Chrome DevTools Protocol."@,
            ),
            Component::Snapshot => node_model(
                "snapshot"@,
                "Snapshot (LVM)"@,
                "control"@,
                "store"@,
                "CoW snapshot of the root LV. Outlives the sandbox; clones & rollback source."@,
            ),
            Component::Sidecar => node_model(
                "sidecar"@,
                "Dev Sidecar"@,
                "data"@,
                "control"@,
                "Local reverse-proxy that rewrites Host headers for e2b compatibility."@,
            ),
            Component::Nginx => node_model(
                "nginx"@,
                "nginx :80"@,
                "data"@,
                "data"@,
                "nginx serving static files inside the guest image."@,
            ),
            Component::BenchVm(i) => node_model(
                "microvm-"@ + text::decimal(i as nat),
                "MicroVM #"@ + text::decimal(i as nat),
                "data"@,
                "vm"@,
                "Concurrent benchmark target sandbox."@,
            ),
        }
    }

    /// The node that stands for a component.
    pub fn node(self) -> (r: TopologyNode)
        ensures
            r.model() == self.node_model(),
    {
        match self {
            Component::User => new_node(
                "user",
                "User Script",
                "control",
                "user",
                "The example invocation triggered when you click Run.",
            ),
            Component::CubeApi => new_node(
                "cubeapi",
                "CubeAPI :3000",
                "control",
                "control",
                "HTTP gateway: validates requests, schedules sandbox creation, proxies data.",
            ),
            Component::CubeMaster => new_node(
                "cubemaster",
                "CubeMaster",
                "control",
                "control",
                "Scheduler: picks a Cubelet node based on template & load.",
            ),
            Component::Cubelet => new_node(
                "cubelet",
                "Cubelet",
                "control",
                "control",
                "Per-node agent: manages the full MicroVM lifecycle.",
            ),
            Component::CubeProxy => new_node(
                "cubeproxy",
                "CubeProxy",
                "data",
                "control",
                "TLS-terminating reverse proxy: forwards via WSS tunnel to in-sandbox envd.",
            ),
            Component::MicroVm => new_node(
                "microvm",
                "KVM MicroVM",
                "data",
                "vm",
                "QEMU/KVM MicroVM: sandbox isolation boundary running envd and the workload.",
            ),
            Component::Envd => new_node(
                "envd",
                "envd :49983",
                "data",
                "data",
                "In-sandbox daemon: exposes Jupyter kernel, filesystem and shell.",
            ),
            Component::Runner => new_node(
                "runner",
                "Python / Shell",
                "data",
                "data",
                "The interpreter process that runs the example code, forked by envd.",
            ),
            Component::CubeVs => new_node(
                "cubevs",
                "CubeVS (eBPF)",
                "data",
                "control",
                "eBPF datapath enforcing allow/deny rules on the guest's veth.",
            ),
            Component::HostDir => new_node(
                "hostdir",
                "Host directory",
                "data",
                "store",
                "Local directory bind-mounted into the MicroVM at boot.",
            ),
            Component::Chromium => new_node(
                "chromium",
                "Chromium :9000",
                "data",
                "data",
                "Headless Chromium inside the guest with CDP enabled.",
            ),
            Component::Playwright => new_node(
                "playwright",
                "Playwright (CDP)",
                "data",
                "data",
                "Python client driving Chromium over the Chrome DevTools Protocol.",
            ),
            Component::Snapshot => new_node(
                "snapshot",
                "Snapshot (LVM)",
                "control",
                "store",
                "CoW snapshot of the root LV. Outlives the sandbox; clones & rollback source.",
            ),
            Component::Sidecar => new_node(
                "sidecar",
                "Dev Sidecar",
                "data",
                "control",
                "Local reverse-proxy that rewrites Host headers for e2b compatibility.",
            ),
            Component::Nginx => new_node(
                "nginx",
                "nginx :80",
                "data",
                "data",
                "nginx serving static files inside the guest image.",
            ),
            Component::BenchVm(i) => new_node(
                text::concat2("microvm-", text::show_decimal(i as u64).as_str()).as_str(),
                text::concat2("MicroVM #", text::show_decimal(i as u64).as_str()).as_str(),
                "data",
                "vm",
                "Concurrent benchmark target sandbox.",
            ),
        }
    }
}

fn new_node(id: &str, label: &str, plane: &str, kind: &str, description: &str) -> (r: TopologyNode)
    ensures
        r.model() == node_model(id@, label@, plane@, kind@, description@),
{
    TopologyNode {
        id: String::from_str(id),
        label: String::from_str(label),
        plane: String::from_str(plane),
        kind: String::from_str(kind),
        description: String::from_str(description),
    }
}

/// The edge between two components.
pub open spec fn link_model(
    from: Component,
    to: Component,
    label: Seq<char>,
    plane: Seq<char>,
) -> EdgeModel {
    EdgeModel { from: from.node_model().id, to: to.node_model().id, label, plane }
}

fn link(from: Component, to: Component, label: &str, plane: &str) -> (r: TopologyEdge)
    ensures
        r.model() == link_model(from, to, label@, plane@),
{
    TopologyEdge {
        from: from.node().id,
        to: to.node().id,
        label: String::from_str(label),
        plane: String::from_str(plane),
    }
}

// ---------------------------------------------------------------------- graphs

/// The components of a scenario. Most scenarios add to the base graph; those that
/// run a browser or nginx replace the runner, and the benchmark replaces the
/// MicroVM by four.
pub open spec fn components(scenario: Seq<char>) -> Seq<Component> {
    if scenario == "network-policy"@ {
        seq![
            Component::User,
            Component::CubeApi,
            Component::CubeMaster,
            Component::Cubelet,
            Component::CubeProxy,
            Component::MicroVm,
            Component::Envd,
            Component::Runner,
            Component::CubeVs,
        ]
    } else if scenario == "host-mount"@ {
        seq![
            Component::User,
            Component::CubeApi,
            Component::CubeMaster,
            Component::Cubelet,
            Component::CubeProxy,
            Component::MicroVm,
            Component::Envd,
            Component::Runner,
            Component::HostDir,
        ]
    } else if scenario == "browser-sandbox"@ {
        seq![
            Component::User,
            Component::CubeApi,
            Component::CubeMaster,
            Component::Cubelet,
            Component::CubeProxy,
            Component::MicroVm,
            Component::Envd,
            Component::Chromium,
            Component::Playwright,
        ]
    } else if scenario == "snapshot-rollback-clone"@ {
        seq![
            Component::User,
            Component::CubeApi,
            Component::CubeMaster,
            Component::Cubelet,
            Component::CubeProxy,
            Component::MicroVm,
            Component::Envd,
            Component::Runner,
            Component::Snapshot,
        ]
    } else if scenario == "e2b-dev-sidecar"@ {
        seq![
            Component::User,
            Component::CubeApi,
            Component::CubeMaster,
            Component::Cubelet,
            Component::CubeProxy,
            Component::MicroVm,
            Component::Envd,
            Component::Runner,
            Component::Sidecar,
        ]
    } else if scenario == "cubesandbox-base-nginx"@ {
        seq![
            Component::User,
            Component::CubeApi,
            Component::CubeMaster,
            Component::Cubelet,
            Component::CubeProxy,
            Component::MicroVm,
            Component::Envd,
            Component::Nginx,
        ]
    } else if scenario == "cube-bench"@ {
        seq![
            Component::User,
            Component::CubeApi,
            Component::CubeMaster,
            Component::Cubelet,
            Component::CubeProxy,
            Component::Envd,
            Component::Runner,
            Component::BenchVm(0),
            Component::BenchVm(1),
            Component::BenchVm(2),
            Component::BenchVm(3),
        ]
    } else {
        seq![
            Component::User,
            Component::CubeApi,
            Component::CubeMaster,
            Component::Cubelet,
            Component::CubeProxy,
            Component::MicroVm,
            Component::Envd,
            Component::Runner,
        ]
    }
}

/// The edges of a scenario.
pub open spec fn links(scenario: Seq<char>) -> Seq<EdgeModel> {
    if scenario == "network-policy"@ {
        seq![
            link_model(Component::User, Component::CubeApi, "HTTPS"@, "control"@),
            link_model(Component::CubeApi, Component::CubeMaster, "gRPC"@, "control"@),
            link_model(Component::CubeMaster, Component::Cubelet, "gRPC"@, "control"@),
            link_model(Component::CubeApi, Component::CubeProxy, "HTTPS"@, "data"@),
            link_model(Component::CubeProxy, Component::Envd, "WSS tunnel"@, "data"@),
            link_model(Component::Envd, Component::Runner, "fork+exec"@, "data"@),
            link_model(Component::Cubelet, Component::CubeVs, "tc/eBPF"@, "data"@),
            link_model(Component::CubeVs, Component::MicroVm, "veth"@, "data"@),
        ]
    } else if scenario == "host-mount"@ {
        seq![
            link_model(Component::User, Component::CubeApi, "HTTPS"@, "control"@),
            link_model(Component::CubeApi, Component::CubeMaster, "gRPC"@, "control"@),
            link_model(Component::CubeMaster, Component::Cubelet, "gRPC"@, "control"@),
            link_model(Component::Cubelet, Component::MicroVm, "QMP / boot"@, "control"@),
            link_model(Component::CubeApi, Component::CubeProxy, "HTTPS"@, "data"@),
            link_model(Component::CubeProxy, Component::Envd, "WSS tunnel"@, "data"@),
            link_model(Component::Envd, Component::Runner, "fork+exec"@, "data"@),
            link_model(Component::HostDir, Component::MicroVm, "9p / virtiofs"@, "data"@),
        ]
    } else if scenario == "browser-sandbox"@ {
        seq![
            link_model(Component::User, Component::CubeApi, "HTTPS"@, "control"@),
            link_model(Component::CubeApi, Component::CubeMaster, "gRPC"@, "control"@),
            link_model(Component::CubeMaster, Component::Cubelet, "gRPC"@, "control"@),
            link_model(Component::Cubelet, Component::MicroVm, "QMP / boot"@, "control"@),
            link_model(Component::CubeApi, Component::CubeProxy, "HTTPS"@, "data"@),
            link_model(Component::CubeProxy, Component::Envd, "WSS tunnel"@, "data"@),
            link_model(Component::Envd, Component::Playwright, "exec"@, "data"@),
            link_model(Component::Playwright, Component::Chromium, "CDP WS"@, "data"@),
        ]
    } else if scenario == "snapshot-rollback-clone"@ {
        seq![
            link_model(Component::User, Component::CubeApi, "HTTPS"@, "control"@),
            link_model(Component::CubeApi, Component::CubeMaster, "gRPC"@, "control"@),
            link_model(Component::CubeMaster, Component::Cubelet, "gRPC"@, "control"@),
            link_model(Component::Cubelet, Component::MicroVm, "QMP / boot"@, "control"@),
            link_model(Component::CubeApi, Component::CubeProxy, "HTTPS"@, "data"@),
            link_model(Component::CubeProxy, Component::Envd, "WSS tunnel"@, "data"@),
            link_model(Component::Envd, Component::Runner, "fork+exec"@, "data"@),
            link_model(Component::Cubelet, Component::Snapshot, "lvcreate --snapshot"@, "control"@),
            link_model(Component::Snapshot, Component::MicroVm, "rollback"@, "control"@),
        ]
    } else if scenario == "e2b-dev-sidecar"@ {
        seq![
            link_model(Component::User, Component::CubeApi, "HTTPS"@, "control"@),
            link_model(Component::CubeApi, Component::CubeMaster, "gRPC"@, "control"@),
            link_model(Component::CubeMaster, Component::Cubelet, "gRPC"@, "control"@),
            link_model(Component::Cubelet, Component::MicroVm, "QMP / boot"@, "control"@),
            link_model(Component::CubeProxy, Component::Envd, "WSS tunnel"@, "data"@),
            link_model(Component::Envd, Component::Runner, "fork+exec"@, "data"@),
            link_model(Component::CubeApi, Component::Sidecar, "HTTPS"@, "data"@),
            link_model(Component::Sidecar, Component::CubeProxy, "Host rewrite"@, "data"@),
        ]
    } else if scenario == "cubesandbox-base-nginx"@ {
        seq![
            link_model(Component::User, Component::CubeApi, "HTTPS"@, "control"@),
            link_model(Component::CubeApi, Component::CubeMaster, "gRPC"@, "control"@),
            link_model(Component::CubeMaster, Component::Cubelet, "gRPC"@, "control"@),
            link_model(Component::Cubelet, Component::MicroVm, "QMP / boot"@, "control"@),
            link_model(Component::CubeApi, Component::CubeProxy, "HTTPS"@, "data"@),
            link_model(Component::CubeProxy, Component::Envd, "WSS tunnel"@, "data"@),
            link_model(Component::Envd, Component::Nginx, "exec"@, "data"@),
        ]
    } else if scenario == "cube-bench"@ {
        seq![
            link_model(Component::User, Component::CubeApi, "HTTPS"@, "control"@),
            link_model(Component::CubeApi, Component::CubeMaster, "gRPC"@, "control"@),
            link_model(Component::CubeMaster, Component::Cubelet, "gRPC"@, "control"@),
            link_model(Component::CubeApi, Component::CubeProxy, "HTTPS"@, "data"@),
            link_model(Component::CubeProxy, Component::Envd, "WSS tunnel"@, "data"@),
            link_model(Component::Envd, Component::Runner, "fork+exec"@, "data"@),
            link_model(Component::Cubelet, Component::BenchVm(0), "QMP"@, "control"@),
            link_model(Component::Cubelet, Component::BenchVm(1), "QMP"@, "control"@),
            link_model(Component::Cubelet, Component::BenchVm(2), "QMP"@, "control"@),
            link_model(Component::Cubelet, Component::BenchVm(3), "QMP"@, "control"@),
        ]
    } else {
        seq![
            link_model(Component::User, Component::CubeApi, "HTTPS"@, "control"@),
            link_model(Component::CubeApi, Component::CubeMaster, "gRPC"@, "control"@),
            link_model(Component::CubeMaster, Component::Cubelet, "gRPC"@, "control"@),
            link_model(Component::Cubelet, Component::MicroVm, "QMP / boot"@, "control"@),
            link_model(Component::CubeApi, Component::CubeProxy, "HTTPS"@, "data"@),
            link_model(Component::CubeProxy, Component::Envd, "WSS tunnel"@, "data"@),
            link_model(Component::Envd, Component::Runner, "fork+exec"@, "data"@),
        ]
    }
}

/// The graph of a scenario.
pub open spec fn topology(scenario: Seq<char>) -> GraphModel {
    GraphModel {
        nodes: components(scenario).map_values(|c: Component| c.node_model()),
        edges: links(scenario),
    }
}

fn components_of(scenario: &str) -> (r: Vec<Component>)
    ensures
        r@ == components(scenario@),
{
    if text::same(scenario, "network-policy") {
        vec![
            Component::User,
            Component::CubeApi,
            Component::CubeMaster,
            Component::Cubelet,
            Component::CubeProxy,
            Component::MicroVm,
            Component::Envd,
            Component::Runner,
            Component::CubeVs,
        ]
    } else if text::same(scenario, "host-mount") {
        vec![
            Component::User,
            Component::CubeApi,
            Component::CubeMaster,
            Component::Cubelet,
            Component::CubeProxy,
            Component::MicroVm,
            Component::Envd,
            Component::Runner,
            Component::HostDir,
        ]
    } else if text::same(scenario, "browser-sandbox") {
        vec![
            Component::User,
            Component::CubeApi,
            Component::CubeMaster,
            Component::Cubelet,
            Component::CubeProxy,
            Component::MicroVm,
            Component::Envd,
            Component::Chromium,
            Component::Playwright,
        ]
    } else if text::same(scenario, "snapshot-rollback-clone") {
        vec![
            Component::User,
            Component::CubeApi,
            Component::CubeMaster,
            Component::Cubelet,
            Component::CubeProxy,
            Component::MicroVm,
            Component::Envd,
            Component::Runner,
            Component::Snapshot,
        ]
    } else if text::same(scenario, "e2b-dev-sidecar") {
        vec![
            Component::User,
            Component::CubeApi,
            Component::CubeMaster,
            Component::Cubelet,
            Component::CubeProxy,
            Component::MicroVm,
            Component::Envd,
            Component::Runner,
            Component::Sidecar,
        ]
    } else if text::same(scenario, "cubesandbox-base-nginx") {
        vec![
            Component::User,
            Component::CubeApi,
            Component::CubeMaster,
            Component::Cubelet,
            Component::CubeProxy,
            Component::MicroVm,
            Component::Envd,
            Component::Nginx,
        ]
    } else if text::same(scenario, "cube-bench") {
        vec![
            Component::User,
            Component::CubeApi,
            Component::CubeMaster,
            Component::Cubelet,
            Component::CubeProxy,
            Component::Envd,
            Component::Runner,
            Component::BenchVm(0),
            Component::BenchVm(1),
            Component::BenchVm(2),
            Component::BenchVm(3),
        ]
    } else {
        vec![
            Component::User,
            Component::CubeApi,
            Component::CubeMaster,
            Component::Cubelet,
            Component::CubeProxy,
            Component::MicroVm,
            Component::Envd,
            Component::Runner,
        ]
    }
}

fn links_of(scenario: &str) -> (r: Vec<TopologyEdge>)
    ensures
        edges_model(r@) == links(scenario@),
{
    let r = if text::same(scenario, "network-policy") {
        vec![
            link(Component::User, Component::CubeApi, "HTTPS", "control"),
            link(Component::CubeApi, Component::CubeMaster, "gRPC", "control"),
            link(Component::CubeMaster, Component::Cubelet, "gRPC", "control"),
            link(Component::CubeApi, Component::CubeProxy, "HTTPS", "data"),
            link(Component::CubeProxy, Component::Envd, "WSS tunnel", "data"),
            link(Component::Envd, Component::Runner, "fork+exec", "data"),
            link(Component::Cubelet, Component::CubeVs, "tc/eBPF", "data"),
            link(Component::CubeVs, Component::MicroVm, "veth", "data"),
        ]
    } else if text::same(scenario, "host-mount") {
        vec![
            link(Component::User, Component::CubeApi, "HTTPS", "control"),
            link(Component::CubeApi, Component::CubeMaster, "gRPC", "control"),
            link(Component::CubeMaster, Component::Cubelet, "gRPC", "control"),
            link(Component::Cubelet, Component::MicroVm, "QMP / boot", "control"),
            link(Component::CubeApi, Component::CubeProxy, "HTTPS", "data"),
            link(Component::CubeProxy, Component::Envd, "WSS tunnel", "data"),
            link(Component::Envd, Component::Runner, "fork+exec", "data"),
            link(Component::HostDir, Component::MicroVm, "9p / virtiofs", "data"),
        ]
    } else if text::same(scenario, "browser-sandbox") {
        vec![
            link(Component::User, Component::CubeApi, "HTTPS", "control"),
            link(Component::CubeApi, Component::CubeMaster, "gRPC", "control"),
            link(Component::CubeMaster, Component::Cubelet, "gRPC", "control"),
            link(Component::Cubelet, Component::MicroVm, "QMP / boot", "control"),
            link(Component::CubeApi, Component::CubeProxy, "HTTPS", "data"),
            link(Component::CubeProxy, Component::Envd, "WSS tunnel", "data"),
            link(Component::Envd, Component::Playwright, "exec", "data"),
            link(Component::Playwright, Component::Chromium, "CDP WS", "data"),
        ]
    } else if text::same(scenario, "snapshot-rollback-clone") {
        vec![
            link(Component::User, Component::CubeApi, "HTTPS", "control"),
            link(Component::CubeApi, Component::CubeMaster, "gRPC", "control"),
            link(Component::CubeMaster, Component::Cubelet, "gRPC", "control"),
            link(Component::Cubelet, Component::MicroVm, "QMP / boot", "control"),
            link(Component::CubeApi, Component::CubeProxy, "HTTPS", "data"),
            link(Component::CubeProxy, Component::Envd, "WSS tunnel", "data"),
            link(Component::Envd, Component::Runner, "fork+exec", "data"),
            link(Component::Cubelet, Component::Snapshot, "lvcreate --snapshot", "control"),
            link(Component::Snapshot, Component::MicroVm, "rollback", "control"),
        ]
    } else if text::same(scenario, "e2b-dev-sidecar") {
        vec![
            link(Component::User, Component::CubeApi, "HTTPS", "control"),
            link(Component::CubeApi, Component::CubeMaster, "gRPC", "control"),
            link(Component::CubeMaster, Component::Cubelet, "gRPC", "control"),
            link(Component::Cubelet, Component::MicroVm, "QMP / boot", "control"),
            link(Component::CubeProxy, Component::Envd, "WSS tunnel", "data"),
            link(Component::Envd, Component::Runner, "fork+exec", "data"),
            link(Component::CubeApi, Component::Sidecar, "HTTPS", "data"),
            link(Component::Sidecar, Component::CubeProxy, "Host rewrite", "data"),
        ]
    } else if text::same(scenario, "cubesandbox-base-nginx") {
        vec![
            link(Component::User, Component::CubeApi, "HTTPS", "control"),
            link(Component::CubeApi, Component::CubeMaster, "gRPC", "control"),
            link(Component::CubeMaster, Component::Cubelet, "gRPC", "control"),
            link(Component::Cubelet, Component::MicroVm, "QMP / boot", "control"),
            link(Component::CubeApi, Component::CubeProxy, "HTTPS", "data"),
            link(Component::CubeProxy, Component::Envd, "WSS tunnel", "data"),
            link(Component::Envd, Component::Nginx, "exec", "data"),
        ]
    } else if text::same(scenario, "cube-bench") {
        vec![
            link(Component::User, Component::CubeApi, "HTTPS", "control"),
            link(Component::CubeApi, Component::CubeMaster, "gRPC", "control"),
            link(Component::CubeMaster, Component::Cubelet, "gRPC", "control"),
            link(Component::CubeApi, Component::CubeProxy, "HTTPS", "data"),
            link(Component::CubeProxy, Component::Envd, "WSS tunnel", "data"),
            link(Component::Envd, Component::Runner, "fork+exec", "data"),
            link(Component::Cubelet, Component::BenchVm(0), "QMP", "control"),
            link(Component::Cubelet, Component::BenchVm(1), "QMP", "control"),
            link(Component::Cubelet, Component::BenchVm(2), "QMP", "control"),
            link(Component::Cubelet, Component::BenchVm(3), "QMP", "control"),
        ]
    } else {
        vec![
            link(Component::User, Component::CubeApi, "HTTPS", "control"),
            link(Component::CubeApi, Component::CubeMaster, "gRPC", "control"),
            link(Component::CubeMaster, Component::Cubelet, "gRPC", "control"),
            link(Component::Cubelet, Component::MicroVm, "QMP / boot", "control"),
            link(Component::CubeApi, Component::CubeProxy, "HTTPS", "data"),
            link(Component::CubeProxy, Component::Envd, "WSS tunnel", "data"),
            link(Component::Envd, Component::Runner, "fork+exec", "data"),
        ]
    };
    assert(edges_model(r@) =~= links(scenario@));
    r
}

/// The graph of a scenario; of a scenario without one of its own, the base graph.
pub fn topology_for(scenario: &str) -> (r: TopologyTemplate)
    ensures
        r.model() == topology(scenario@),
{
    let parts = components_of(scenario);
    let mut nodes: Vec<TopologyNode> = Vec::new();
    let mut i: usize = 0;
    while i < parts.len()
        invariant
            i <= parts@.len(),
            nodes@.len() == i,
            forall|k: int|
                0 <= k < i ==> (#[trigger] nodes@[k]).model() == parts@[k].node_model(),
        decreases parts.len() - i,
    {
        nodes.push(parts[i].node());
        i += 1;
    }
    assert(nodes_model(nodes@) =~= topology(scenario@).nodes);
    TopologyTemplate { nodes, edges: links_of(scenario) }
}

/// The same graph once more.
pub fn copy_template(template: &TopologyTemplate) -> (r: TopologyTemplate)
    ensures
        r.model() == template.model(),
{
    let mut nodes: Vec<TopologyNode> = Vec::new();
    let mut i: usize = 0;
    while i < template.nodes.len()
        invariant
            i <= template.nodes@.len(),
            nodes@.len() == i,
            forall|k: int|
                0 <= k < i ==> (#[trigger] nodes@[k]).model() == template.nodes@[k].model(),
        decreases template.nodes.len() - i,
    {
        let node = &template.nodes[i];
        nodes.push(
            new_node(
                node.id.as_str(),
                node.label.as_str(),
                node.plane.as_str(),
                node.kind.as_str(),
                node.description.as_str(),
            ),
        );
        i += 1;
    }
    let mut edges: Vec<TopologyEdge> = Vec::new();
    let mut j: usize = 0;
    while j < template.edges.len()
        invariant
            j <= template.edges@.len(),
            edges@.len() == j,
            forall|k: int|
                0 <= k < j ==> (#[trigger] edges@[k]).model() == template.edges@[k].model(),
        decreases template.edges.len() - j,
    {
        let edge = &template.edges[j];
        edges.push(
            TopologyEdge {
                from: edge.from.clone(),
                to: edge.to.clone(),
                label: edge.label.clone(),
                plane: edge.plane.clone(),
            },
        );
        j += 1;
    }
    assert(nodes_model(nodes@) =~= nodes_model(template.nodes@));
    assert(edges_model(edges@) =~= edges_model(template.edges@));
    TopologyTemplate { nodes, edges }
}

// ---------------------------------------------------------------------- status

/// Whether a run marks the node with that identifier.
pub open spec fn shows_status(id: Seq<char>) -> bool {
    id == "user"@ || id == "runner"@ || id == "playwright"@
}

/// A node after a run: the user, the runner and Playwright carry the status in
/// front of their description, the others stay as they are.
pub open spec fn marked(node: NodeModel, success: bool) -> NodeModel {
    if shows_status(node.id) {
        NodeModel {
            description: "["@ + (if success {
                "ok"@
            } else {
                "err"@
            }) + "] "@ + node.description,
            ..node
        }
    } else {
        node
    }
}

/// A graph after a run.
pub open spec fn with_status(graph: GraphModel, success: bool) -> GraphModel {
    GraphModel {
        nodes: graph.nodes.map_values(|node: NodeModel| marked(node, success)),
        edges: graph.edges,
    }
}

/// Marks a graph with the status of a run.
pub fn topology_with_status(t: TopologyTemplate, success: bool) -> (r: TopologyGraph)
    ensures
        r.model() == with_status(t.model(), success),
{
    let status = if success {
        "ok"
    } else {
        "err"
    };
    let ghost given = t.nodes@;
    let mut nodes: Vec<TopologyNode> = Vec::new();
    for node in iter: t.nodes
        invariant
            iter.seq() == given,
            nodes@.len() == iter.index(),
            status@ == (if success {
                "ok"@
            } else {
                "err"@
            }),
            forall|k: int|
                0 <= k < nodes@.len() ==> (#[trigger] nodes@[k]).model() == marked(
                    given[k].model(),
                    success,
                ),
    {
        let mut node = node;
        if text::same(node.id.as_str(), "user") || text::same(node.id.as_str(), "runner")
            || text::same(node.id.as_str(), "playwright") {
            let mut description = text::concat3("[", status, "] ");
            description.append(node.description.as_str());
            node.description = description;
        }
        nodes.push(node);
    }
    let r = TopologyGraph { nodes, edges: t.edges };
    assert(r.model().nodes =~= with_status(t.model(), success).nodes);
    r
}

// ------------------------------------------------------------------------ laws

/// A graph that can be drawn: no identifier twice, every edge between two of its
/// nodes, and only the planes and kinds that there are.
pub open spec fn is_drawable(graph: GraphModel) -> bool {
    &&& forall|i: int, j: int|
        0 <= i < j < graph.nodes.len() ==> (#[trigger] graph.nodes[i]).id != (
        #[trigger] graph.nodes[j]).id
    &&& forall|i: int| 0 <= i < graph.nodes.len() ==> is_plain_node(#[trigger] graph.nodes[i])
    &&& forall|i: int|
        0 <= i < graph.edges.len() ==> {
            let edge = #[trigger] graph.edges[i];
            &&& is_plane(edge.plane)
            &&& has_node(graph, edge.from)
            &&& has_node(graph, edge.to)
        }
}

pub open spec fn is_plane(plane: Seq<char>) -> bool {
    plane == "control"@ || plane == "data"@
}

pub open spec fn is_plain_node(node: NodeModel) -> bool {
    &&& is_plane(node.plane)
    &&& node.kind == "user"@ || node.kind == "control"@ || node.kind == "data"@ || node.kind
        == "vm"@ || node.kind == "store"@
}

pub open spec fn has_node(graph: GraphModel, id: Seq<char>) -> bool {
    exists|i: int| 0 <= i < graph.nodes.len() && (#[trigger] graph.nodes[i]).id == id
}

/// No two components share an identifier.
proof fn lemma_ids_differ(a: Component, b: Component)
    requires
        a != b,
        a matches Component::BenchVm(i) ==> i < 10,
        b matches Component::BenchVm(i) ==> i < 10,
    ensures
        a.node_model().id != b.node_model().id,
{
    reveal_strlit("user");
    reveal_strlit("cubeapi");
    reveal_strlit("cubemaster");
    reveal_strlit("cubelet");
    reveal_strlit("cubeproxy");
    reveal_strlit("microvm");
    reveal_strlit("envd");
    reveal_strlit("runner");
    reveal_strlit("cubevs");
    reveal_strlit("hostdir");
    reveal_strlit("chromium");
    reveal_strlit("playwright");
    reveal_strlit("snapshot");
    reveal_strlit("sidecar");
    reveal_strlit("nginx");
    reveal_strlit("microvm-");
    assert("user"@.len() == 4 && "user"@[0] == 'u');
    assert("cubeapi"@.len() == 7 && "cubeapi"@[0] == 'c');
    assert("cubemaster"@.len() == 10 && "cubemaster"@[0] == 'c');
    assert("cubelet"@.len() == 7 && "cubelet"@[0] == 'c');
    assert("cubeproxy"@.len() == 9 && "cubeproxy"@[0] == 'c');
    assert("microvm"@.len() == 7 && "microvm"@[0] == 'm');
    assert("envd"@.len() == 4 && "envd"@[0] == 'e');
    assert("runner"@.len() == 6 && "runner"@[0] == 'r');
    assert("cubevs"@.len() == 6 && "cubevs"@[0] == 'c');
    assert("hostdir"@.len() == 7 && "hostdir"@[0] == 'h');
    assert("chromium"@.len() == 8 && "chromium"@[0] == 'c');
    assert("playwright"@.len() == 10 && "playwright"@[0] == 'p');
    assert("snapshot"@.len() == 8 && "snapshot"@[0] == 's');
    assert("sidecar"@.len() == 7 && "sidecar"@[0] == 's');
    assert("nginx"@.len() == 5 && "nginx"@[0] == 'n');
    assert("cubeapi"@[4] != "cubelet"@[4]);
    if let Component::BenchVm(i) = a {
        assert(text::decimal(i as nat) =~= seq![text::hex_digit(i as int)]);
        assert(a.node_model().id.len() == 9);
        assert(a.node_model().id[0] == 'm');
        assert(a.node_model().id[8] == text::hex_digit(i as int));
    }
    if let Component::BenchVm(i) = b {
        assert(text::decimal(i as nat) =~= seq![text::hex_digit(i as int)]);
        assert(b.node_model().id.len() == 9);
        assert(b.node_model().id[0] == 'm');
        assert(b.node_model().id[8] == text::hex_digit(i as int));
    }
}

/// Every scenario has a graph that can be drawn.
pub proof fn lemma_topology_is_drawable(scenario: Seq<char>)
    ensures
        is_drawable(topology(scenario)),
{
    let parts = components(scenario);
    let graph = topology(scenario);
    assert forall|i: int, j: int| 0 <= i < j < graph.nodes.len() implies (
    #[trigger] graph.nodes[i]).id != (#[trigger] graph.nodes[j]).id by {
        assert(parts[i] != parts[j]);
        lemma_ids_differ(parts[i], parts[j]);
    }
    assert forall|i: int| 0 <= i < graph.edges.len() implies {
        let edge = #[trigger] graph.edges[i];
        &&& is_plane(edge.plane)
        &&& has_node(graph, edge.from)
        &&& has_node(graph, edge.to)
    } by {
        assert forall|k: int| 0 <= k < parts.len() implies has_node(
            graph,
            #[trigger] parts[k].node_model().id,
        ) by {
            assert(graph.nodes[k].id == parts[k].node_model().id);
        }
        assert(parts[0] == Component::User);
    }
}

/// A run changes nothing of a graph but the descriptions of the user, the runner
/// and Playwright, and it keeps what those said.
pub proof fn lemma_status_keeps_the_graph(graph: GraphModel, success: bool)
    ensures
        with_status(graph, success).edges == graph.edges,
        with_status(graph, success).nodes.len() == graph.nodes.len(),
        forall|i: int|
            0 <= i < graph.nodes.len() ==> {
                let before = graph.nodes[i];
                let after = #[trigger] with_status(graph, success).nodes[i];
                &&& after.id == before.id
                &&& after.label == before.label
                &&& after.plane == before.plane
                &&& after.kind == before.kind
                &&& before.description.is_suffix_of(after.description)
                &&& !shows_status(before.id) ==> after == before
            },
        is_drawable(graph) ==> is_drawable(with_status(graph, success)),
{
    let after = with_status(graph, success);
    assert forall|i: int| 0 <= i < graph.nodes.len() implies graph.nodes[i].description.is_suffix_of(
        (#[trigger] after.nodes[i]).description,
    ) by {
        let d = graph.nodes[i].description;
        let e = after.nodes[i].description;
        assert(e.subrange(e.len() - d.len(), e.len() as int) =~= d);
    }
    if is_drawable(graph) {
        assert forall|i: int| 0 <= i < after.edges.len() implies {
            let edge = #[trigger] after.edges[i];
            &&& is_plane(edge.plane)
            &&& has_node(after, edge.from)
            &&& has_node(after, edge.to)
        } by {
            let edge = graph.edges[i];
            let f = choose|k: int|
                0 <= k < graph.nodes.len() && (#[trigger] graph.nodes[k]).id == edge.from;
            let t = choose|k: int|
                0 <= k < graph.nodes.len() && (#[trigger] graph.nodes[k]).id == edge.to;
            assert(after.nodes[f].id == edge.from);
            assert(after.nodes[t].id == edge.to);
        }
    }
}

// ------------------------------------------------------------- laws of the edges

/// Whether an edge leads from one node to another, on that plane where one is given.
pub open spec fn has_edge(
    graph: GraphModel,
    plane: Option<Seq<char>>,
    from: Seq<char>,
    to: Seq<char>,
) -> bool {
    exists|i: int|
        0 <= i < graph.edges.len() && (#[trigger] graph.edges[i]).from == from && graph.edges[i].to
            == to && (plane is None || plane == Some(graph.edges[i].plane))
}

pub open spec fn is_step(
    graph: GraphModel,
    plane: Option<Seq<char>>,
    path: Seq<Seq<char>>,
    i: int,
) -> bool {
    has_edge(graph, plane, path[i], path[i + 1])
}

/// Whether a row of nodes is a way along the edges.
pub open spec fn is_path(
    graph: GraphModel,
    plane: Option<Seq<char>>,
    path: Seq<Seq<char>>,
) -> bool {
    path.len() > 0 && forall|i: int|
        0 <= i < path.len() - 1 ==> #[trigger] is_step(graph, plane, path, i)
}

/// Whether a node is reached from another along the edges, on that plane where one is
/// given.
pub open spec fn reaches(
    graph: GraphModel,
    plane: Option<Seq<char>>,
    from: Seq<char>,
    to: Seq<char>,
) -> bool {
    exists|path: Seq<Seq<char>>| #[trigger]
        is_path(graph, plane, path) && path[0] == from && path.last() == to
}

proof fn lemma_reaches_itself(graph: GraphModel, plane: Option<Seq<char>>, node: Seq<char>)
    ensures
        reaches(graph, plane, node, node),
{
    assert(is_path(graph, plane, seq![node]));
}

proof fn lemma_reaches_on(
    graph: GraphModel,
    plane: Option<Seq<char>>,
    from: Seq<char>,
    over: Seq<char>,
    to: Seq<char>,
)
    requires
        reaches(graph, plane, from, over),
        has_edge(graph, plane, over, to),
    ensures
        reaches(graph, plane, from, to),
{
    let path = choose|path: Seq<Seq<char>>| #[trigger]
        is_path(graph, plane, path) && path[0] == from && path.last() == over;
    let longer = path.push(to);
    assert forall|i: int| 0 <= i < longer.len() - 1 implies #[trigger] is_step(
        graph,
        plane,
        longer,
        i,
    ) by {
        if i < path.len() - 1 {
            assert(is_step(graph, plane, path, i));
        }
    }
    assert(is_path(graph, plane, longer));
    assert(longer[0] == from && longer.last() == to);
}

/// A way that starts in a part of a graph which only one door leads out of, and does
/// not go through that door, stays in that part.
proof fn lemma_path_stays(
    graph: GraphModel,
    path: Seq<Seq<char>>,
    part: spec_fn(Seq<char>) -> bool,
    door: Seq<char>,
)
    requires
        is_path(graph, None, path),
        part(path[0]),
        !path.contains(door),
        forall|i: int|
            0 <= i < graph.edges.len() && part((#[trigger] graph.edges[i]).from)
                && graph.edges[i].to != door ==> part(graph.edges[i].to),
    ensures
        part(path.last()),
    decreases path.len(),
{
    if path.len() > 1 {
        let shorter = path.drop_last();
        assert forall|i: int| 0 <= i < shorter.len() - 1 implies #[trigger] is_step(
            graph,
            None,
            shorter,
            i,
        ) by {
            assert(is_step(graph, None, path, i));
        }
        assert forall|i: int| 0 <= i < shorter.len() implies shorter[i] != door by {
            assert(path.contains(path[i]));
        }
        lemma_path_stays(graph, shorter, part, door);
        assert(is_step(graph, None, path, path.len() - 2));
        assert(path.contains(path.last()));
    }
}

/// The components that each edge of a scenario connects.
spec fn ends(scenario: Seq<char>) -> Seq<(Component, Component)> {
    if scenario == "network-policy"@ {
        seq![
            (Component::User, Component::CubeApi),
            (Component::CubeApi, Component::CubeMaster),
            (Component::CubeMaster, Component::Cubelet),
            (Component::CubeApi, Component::CubeProxy),
            (Component::CubeProxy, Component::Envd),
            (Component::Envd, Component::Runner),
            (Component::Cubelet, Component::CubeVs),
            (Component::CubeVs, Component::MicroVm),
        ]
    } else if scenario == "host-mount"@ {
        seq![
            (Component::User, Component::CubeApi),
            (Component::CubeApi, Component::CubeMaster),
            (Component::CubeMaster, Component::Cubelet),
            (Component::Cubelet, Component::MicroVm),
            (Component::CubeApi, Component::CubeProxy),
            (Component::CubeProxy, Component::Envd),
            (Component::Envd, Component::Runner),
            (Component::HostDir, Component::MicroVm),
        ]
    } else if scenario == "browser-sandbox"@ {
        seq![
            (Component::User, Component::CubeApi),
            (Component::CubeApi, Component::CubeMaster),
            (Component::CubeMaster, Component::Cubelet),
            (Component::Cubelet, Component::MicroVm),
            (Component::CubeApi, Component::CubeProxy),
            (Component::CubeProxy, Component::Envd),
            (Component::Envd, Component::Playwright),
            (Component::Playwright, Component::Chromium),
        ]
    } else if scenario == "snapshot-rollback-clone"@ {
        seq![
            (Component::User, Component::CubeApi),
            (Component::CubeApi, Component::CubeMaster),
            (Component::CubeMaster, Component::Cubelet),
            (Component::Cubelet, Component::MicroVm),
            (Component::CubeApi, Component::CubeProxy),
            (Component::CubeProxy, Component::Envd),
            (Component::Envd, Component::Runner),
            (Component::Cubelet, Component::Snapshot),
            (Component::Snapshot, Component::MicroVm),
        ]
    } else if scenario == "e2b-dev-sidecar"@ {
        seq![
            (Component::User, Component::CubeApi),
            (Component::CubeApi, Component::CubeMaster),
            (Component::CubeMaster, Component::Cubelet),
            (Component::Cubelet, Component::MicroVm),
            (Component::CubeProxy, Component::Envd),
            (Component::Envd, Component::Runner),
            (Component::CubeApi, Component::Sidecar),
            (Component::Sidecar, Component::CubeProxy),
        ]
    } else if scenario == "cubesandbox-base-nginx"@ {
        seq![
            (Component::User, Component::CubeApi),
            (Component::CubeApi, Component::CubeMaster),
            (Component::CubeMaster, Component::Cubelet),
            (Component::Cubelet, Component::MicroVm),
            (Component::CubeApi, Component::CubeProxy),
            (Component::CubeProxy, Component::Envd),
            (Component::Envd, Component::Nginx),
        ]
    } else if scenario == "cube-bench"@ {
        seq![
            (Component::User, Component::CubeApi),
            (Component::CubeApi, Component::CubeMaster),
            (Component::CubeMaster, Component::Cubelet),
            (Component::CubeApi, Component::CubeProxy),
            (Component::CubeProxy, Component::Envd),
            (Component::Envd, Component::Runner),
            (Component::Cubelet, Component::BenchVm(0)),
            (Component::Cubelet, Component::BenchVm(1)),
            (Component::Cubelet, Component::BenchVm(2)),
            (Component::Cubelet, Component::BenchVm(3)),
        ]
    } else {
        seq![
            (Component::User, Component::CubeApi),
            (Component::CubeApi, Component::CubeMaster),
            (Component::CubeMaster, Component::Cubelet),
            (Component::Cubelet, Component::MicroVm),
            (Component::CubeApi, Component::CubeProxy),
            (Component::CubeProxy, Component::Envd),
            (Component::Envd, Component::Runner),
        ]
    }
}

/// The label and the plane of the edge between two components.
spec fn wire(from: Component, to: Component) -> (Seq<char>, Seq<char>) {
    match (from, to) {
        (Component::User, Component::CubeApi) => ("HTTPS"@, "control"@),
        (Component::CubeApi, Component::CubeMaster) => ("gRPC"@, "control"@),
        (Component::CubeMaster, Component::Cubelet) => ("gRPC"@, "control"@),
        (Component::CubeApi, Component::CubeProxy) => ("HTTPS"@, "data"@),
        (Component::CubeProxy, Component::Envd) => ("WSS tunnel"@, "data"@),
        (Component::Envd, Component::Runner) => ("fork+exec"@, "data"@),
        (Component::Cubelet, Component::CubeVs) => ("tc/eBPF"@, "data"@),
        (Component::CubeVs, Component::MicroVm) => ("veth"@, "data"@),
        (Component::Cubelet, Component::MicroVm) => ("QMP / boot"@, "control"@),
        (Component::HostDir, Component::MicroVm) => ("9p / virtiofs"@, "data"@),
        (Component::Envd, Component::Playwright) => ("exec"@, "data"@),
        (Component::Playwright, Component::Chromium) => ("CDP WS"@, "data"@),
        (Component::Cubelet, Component::Snapshot) => ("lvcreate --snapshot"@, "control"@),
        (Component::Snapshot, Component::MicroVm) => ("rollback"@, "control"@),
        (Component::CubeApi, Component::Sidecar) => ("HTTPS"@, "data"@),
        (Component::Sidecar, Component::CubeProxy) => ("Host rewrite"@, "data"@),
        (Component::Envd, Component::Nginx) => ("exec"@, "data"@),
        (Component::Cubelet, Component::BenchVm(_)) => ("QMP"@, "control"@),
        _ => (seq![], seq![]),
    }
}

proof fn lemma_links_are_wires(scenario: Seq<char>, i: int)
    requires
        0 <= i < links(scenario).len(),
    ensures
        ends(scenario).len() == links(scenario).len(),
        links(scenario)[i] == link_model(
            ends(scenario)[i].0,
            ends(scenario)[i].1,
            wire(ends(scenario)[i].0, ends(scenario)[i].1).0,
            wire(ends(scenario)[i].0, ends(scenario)[i].1).1,
        ),
        !(ends(scenario)[i].0 is MicroVm),
        !(ends(scenario)[i].0 is BenchVm),
        ends(scenario)[i].1 matches Component::BenchVm(n) ==> n < 10,
        ends(scenario)[i].0 == Component::Cubelet && scenario == "network-policy"@
            ==> ends(scenario)[i].1 == Component::CubeVs,
{
}

proof fn lemma_linked(scenario: Seq<char>, i: int)
    requires
        0 <= i < links(scenario).len(),
    ensures
        has_edge(
            topology(scenario),
            None,
            ends(scenario)[i].0.node_model().id,
            ends(scenario)[i].1.node_model().id,
        ),
        has_edge(
            topology(scenario),
            Some(wire(ends(scenario)[i].0, ends(scenario)[i].1).1),
            ends(scenario)[i].0.node_model().id,
            ends(scenario)[i].1.node_model().id,
        ),
{
    lemma_links_are_wires(scenario, i);
    let edge = topology(scenario).edges[i];
    assert(edge == links(scenario)[i]);
}

/// The same two components are connected in the same way in every scenario: by an edge
/// with the same label on the same plane.
pub proof fn lemma_edges_agree(a: Seq<char>, b: Seq<char>, i: int, j: int)
    requires
        0 <= i < topology(a).edges.len(),
        0 <= j < topology(b).edges.len(),
        topology(a).edges[i].from == topology(b).edges[j].from,
        topology(a).edges[i].to == topology(b).edges[j].to,
    ensures
        topology(a).edges[i] == topology(b).edges[j],
{
    lemma_links_are_wires(a, i);
    lemma_links_are_wires(b, j);
    let (p, q) = ends(a)[i];
    let (r, t) = ends(b)[j];
    if p != r {
        lemma_ids_differ(p, r);
    }
    if q != t {
        lemma_ids_differ(q, t);
    }
}

/// No edge leads out of a MicroVM: nothing is reached over it.
pub proof fn lemma_nothing_is_reached_over_a_vm(scenario: Seq<char>, i: int, k: int)
    requires
        0 <= i < topology(scenario).edges.len(),
        0 <= k < topology(scenario).nodes.len(),
        topology(scenario).nodes[k].kind == "vm"@,
    ensures
        topology(scenario).edges[i].from != topology(scenario).nodes[k].id,
{
    lemma_links_are_wires(scenario, i);
    let part = components(scenario)[k];
    lemma_kinds(part);
    let from = ends(scenario)[i].0;
    lemma_ids_differ(from, part);
}

/// What the kind and the plane of a component are.
pub proof fn lemma_kinds(part: Component)
    ensures
        part.node_model().kind == "vm"@ <==> part is MicroVm || part is BenchVm,
        part.node_model().kind == "store"@ <==> part is HostDir || part is Snapshot,
        part.node_model().kind == "user"@ <==> part is User,
        part.node_model().plane == "control"@ <==> part is User || part is CubeApi
            || part is CubeMaster || part is Cubelet || part is Snapshot,
        is_plane(part.node_model().plane),
{
    reveal_strlit("vm");
    reveal_strlit("store");
    reveal_strlit("user");
    reveal_strlit("control");
    reveal_strlit("data");
    assert("vm"@.len() == 2 && "store"@.len() == 5 && "user"@.len() == 4);
    assert("control"@.len() == 7 && "data"@.len() == 4);
    assert("user"@[0] == 'u' && "data"@[0] == 'd');
}

proof fn lemma_names_differ()
    ensures
        "network-policy"@ != "host-mount"@,
        "network-policy"@ != "browser-sandbox"@,
        "network-policy"@ != "snapshot-rollback-clone"@,
        "network-policy"@ != "e2b-dev-sidecar"@,
        "network-policy"@ != "cubesandbox-base-nginx"@,
        "network-policy"@ != "cube-bench"@,
        "network-policy"@ != "code-sandbox-quickstart"@,
        "host-mount"@ != "browser-sandbox"@,
        "host-mount"@ != "snapshot-rollback-clone"@,
        "host-mount"@ != "e2b-dev-sidecar"@,
        "host-mount"@ != "cubesandbox-base-nginx"@,
        "host-mount"@ != "cube-bench"@,
        "host-mount"@ != "code-sandbox-quickstart"@,
        "browser-sandbox"@ != "snapshot-rollback-clone"@,
        "browser-sandbox"@ != "e2b-dev-sidecar"@,
        "browser-sandbox"@ != "cubesandbox-base-nginx"@,
        "browser-sandbox"@ != "cube-bench"@,
        "browser-sandbox"@ != "code-sandbox-quickstart"@,
        "snapshot-rollback-clone"@ != "e2b-dev-sidecar"@,
        "snapshot-rollback-clone"@ != "cubesandbox-base-nginx"@,
        "snapshot-rollback-clone"@ != "cube-bench"@,
        "snapshot-rollback-clone"@ != "code-sandbox-quickstart"@,
        "e2b-dev-sidecar"@ != "cubesandbox-base-nginx"@,
        "e2b-dev-sidecar"@ != "cube-bench"@,
        "e2b-dev-sidecar"@ != "code-sandbox-quickstart"@,
        "cubesandbox-base-nginx"@ != "cube-bench"@,
        "cubesandbox-base-nginx"@ != "code-sandbox-quickstart"@,
        "cube-bench"@ != "code-sandbox-quickstart"@,
{
    reveal_strlit("network-policy");
    reveal_strlit("host-mount");
    reveal_strlit("browser-sandbox");
    reveal_strlit("snapshot-rollback-clone");
    reveal_strlit("e2b-dev-sidecar");
    reveal_strlit("cubesandbox-base-nginx");
    reveal_strlit("cube-bench");
    reveal_strlit("code-sandbox-quickstart");
    assert("network-policy"@.len() == 14 && "network-policy"@[0] == 'n');
    assert("host-mount"@.len() == 10 && "host-mount"@[0] == 'h');
    assert("browser-sandbox"@.len() == 15 && "browser-sandbox"@[0] == 'b');
    assert("snapshot-rollback-clone"@.len() == 23 && "snapshot-rollback-clone"@[0] == 's');
    assert("e2b-dev-sidecar"@.len() == 15 && "e2b-dev-sidecar"@[0] == 'e');
    assert("cubesandbox-base-nginx"@.len() == 22 && "cubesandbox-base-nginx"@[0] == 'c');
    assert("cube-bench"@.len() == 10 && "cube-bench"@[0] == 'c');
    assert("code-sandbox-quickstart"@.len() == 23 && "code-sandbox-quickstart"@[0] == 'c');
}

proof fn lemma_network_policy_is_connected(scenario: Seq<char>, k: int)
    requires
        scenario == "network-policy"@,
        0 <= k < components(scenario).len(),
        !(components(scenario)[k] is HostDir),
    ensures
        reaches(topology(scenario), None, "user"@, components(scenario)[k].node_model().id),
        reaches(topology(scenario), Some("control"@), "user"@, "cubelet"@),
        reaches(topology(scenario), Some("data"@), "cubeapi"@, "envd"@),
{
    let graph = topology(scenario);
    lemma_reaches_itself(graph, None, "user"@);
    lemma_linked(scenario, 0);
    lemma_reaches_on(
        graph,
        None,
        "user"@,
        Component::User.node_model().id,
        Component::CubeApi.node_model().id,
    );
    lemma_linked(scenario, 1);
    lemma_reaches_on(
        graph,
        None,
        "user"@,
        Component::CubeApi.node_model().id,
        Component::CubeMaster.node_model().id,
    );
    lemma_linked(scenario, 3);
    lemma_reaches_on(
        graph,
        None,
        "user"@,
        Component::CubeApi.node_model().id,
        Component::CubeProxy.node_model().id,
    );
    lemma_linked(scenario, 2);
    lemma_reaches_on(
        graph,
        None,
        "user"@,
        Component::CubeMaster.node_model().id,
        Component::Cubelet.node_model().id,
    );
    lemma_linked(scenario, 4);
    lemma_reaches_on(
        graph,
        None,
        "user"@,
        Component::CubeProxy.node_model().id,
        Component::Envd.node_model().id,
    );
    lemma_linked(scenario, 6);
    lemma_reaches_on(
        graph,
        None,
        "user"@,
        Component::Cubelet.node_model().id,
        Component::CubeVs.node_model().id,
    );
    lemma_linked(scenario, 5);
    lemma_reaches_on(
        graph,
        None,
        "user"@,
        Component::Envd.node_model().id,
        Component::Runner.node_model().id,
    );
    lemma_linked(scenario, 7);
    lemma_reaches_on(
        graph,
        None,
        "user"@,
        Component::CubeVs.node_model().id,
        Component::MicroVm.node_model().id,
    );
    let control = Some("control"@);
    lemma_reaches_itself(graph, control, "user"@);
    lemma_linked(scenario, 0);
    lemma_reaches_on(graph, control, "user"@, Component::User.node_model().id, Component::CubeApi.node_model().id);
    lemma_linked(scenario, 1);
    lemma_reaches_on(graph, control, "user"@, Component::CubeApi.node_model().id, Component::CubeMaster.node_model().id);
    lemma_linked(scenario, 2);
    lemma_reaches_on(graph, control, "user"@, Component::CubeMaster.node_model().id, Component::Cubelet.node_model().id);
    let data = Some("data"@);
    lemma_reaches_itself(graph, data, "cubeapi"@);
    lemma_linked(scenario, 3);
    lemma_reaches_on(graph, data, "cubeapi"@, Component::CubeApi.node_model().id, Component::CubeProxy.node_model().id);
    lemma_linked(scenario, 4);
    lemma_reaches_on(graph, data, "cubeapi"@, Component::CubeProxy.node_model().id, Component::Envd.node_model().id);
}

proof fn lemma_host_mount_is_connected(scenario: Seq<char>, k: int)
    requires
        scenario == "host-mount"@,
        0 <= k < components(scenario).len(),
        !(components(scenario)[k] is HostDir),
    ensures
        reaches(topology(scenario), None, "user"@, components(scenario)[k].node_model().id),
        reaches(topology(scenario), Some("control"@), "user"@, "cubelet"@),
        reaches(topology(scenario), Some("data"@), "cubeapi"@, "envd"@),
{
    let graph = topology(scenario);
    lemma_names_differ();
    lemma_reaches_itself(graph, None, "user"@);
    lemma_linked(scenario, 0);
    lemma_reaches_on(
        graph,
        None,
        "user"@,
        Component::User.node_model().id,
        Component::CubeApi.node_model().id,
    );
    lemma_linked(scenario, 1);
    lemma_reaches_on(
        graph,
        None,
        "user"@,
        Component::CubeApi.node_model().id,
        Component::CubeMaster.node_model().id,
    );
    lemma_linked(scenario, 4);
    lemma_reaches_on(
        graph,
        None,
        "user"@,
        Component::CubeApi.node_model().id,
        Component::CubeProxy.node_model().id,
    );
    lemma_linked(scenario, 2);
    lemma_reaches_on(
        graph,
        None,
        "user"@,
        Component::CubeMaster.node_model().id,
        Component::Cubelet.node_model().id,
    );
    lemma_linked(scenario, 5);
    lemma_reaches_on(
        graph,
        None,
        "user"@,
        Component::CubeProxy.node_model().id,
        Component::Envd.node_model().id,
    );
    lemma_linked(scenario, 3);
    lemma_reaches_on(
        graph,
        None,
        "user"@,
        Component::Cubelet.node_model().id,
        Component::MicroVm.node_model().id,
    );
    lemma_linked(scenario, 6);
    lemma_reaches_on(
        graph,
        None,
        "user"@,
        Component::Envd.node_model().id,
        Component::Runner.node_model().id,
    );
    let control = Some("control"@);
    lemma_reaches_itself(graph, control, "user"@);
    lemma_linked(scenario, 0);
    lemma_reaches_on(graph, control, "user"@, Component::User.node_model().id, Component::CubeApi.node_model().id);
    lemma_linked(scenario, 1);
    lemma_reaches_on(graph, control, "user"@, Component::CubeApi.node_model().id, Component::CubeMaster.node_model().id);
    lemma_linked(scenario, 2);
    lemma_reaches_on(graph, control, "user"@, Component::CubeMaster.node_model().id, Component::Cubelet.node_model().id);
    let data = Some("data"@);
    lemma_reaches_itself(graph, data, "cubeapi"@);
    lemma_linked(scenario, 4);
    lemma_reaches_on(graph, data, "cubeapi"@, Component::CubeApi.node_model().id, Component::CubeProxy.node_model().id);
    lemma_linked(scenario, 5);
    lemma_reaches_on(graph, data, "cubeapi"@, Component::CubeProxy.node_model().id, Component::Envd.node_model().id);
}

proof fn lemma_browser_sandbox_is_connected(scenario: Seq<char>, k: int)
    requires
        scenario == "browser-sandbox"@,
        0 <= k < components(scenario).len(),
        !(components(scenario)[k] is HostDir),
    ensures
        reaches(topology(scenario), None, "user"@, components(scenario)[k].node_model().id),
        reaches(topology(scenario), Some("control"@), "user"@, "cubelet"@),
        reaches(topology(scenario), Some("data"@), "cubeapi"@, "envd"@),
{
    let graph = topology(scenario);
    lemma_names_differ();
    lemma_reaches_itself(graph, None, "user"@);
    lemma_linked(scenario, 0);
    lemma_reaches_on(
        graph,
        None,
        "user"@,
        Component::User.node_model().id,
        Component::CubeApi.node_model().id,
    );
    lemma_linked(scenario, 1);
    lemma_reaches_on(
        graph,
        None,
        "user"@,
        Component::CubeApi.node_model().id,
        Component::CubeMaster.node_model().id,
    );
    lemma_linked(scenario, 4);
    lemma_reaches_on(
        graph,
        None,
        "user"@,
        Component::CubeApi.node_model().id,
        Component::CubeProxy.node_model().id,
    );
    lemma_linked(scenario, 2);
    lemma_reaches_on(
        graph,
        None,
        "user"@,
        Component::CubeMaster.node_model().id,
        Component::Cubelet.node_model().id,
    );
    lemma_linked(scenario, 5);
    lemma_reaches_on(
        graph,
        None,
        "user"@,
        Component::CubeProxy.node_model().id,
        Component::Envd.node_model().id,
    );
    lemma_linked(scenario, 3);
    lemma_reaches_on(
        graph,
        None,
        "user"@,
        Component::Cubelet.node_model().id,
        Component::MicroVm.node_model().id,
    );
    lemma_linked(scenario, 6);
    lemma_reaches_on(
        graph,
        None,
        "user"@,
        Component::Envd.node_model().id,
        Component::Playwright.node_model().id,
    );
    lemma_linked(scenario, 7);
    lemma_reaches_on(
        graph,
        None,
        "user"@,
        Component::Playwright.node_model().id,
        Component::Chromium.node_model().id,
    );
    let control = Some("control"@);
    lemma_reaches_itself(graph, control, "user"@);
    lemma_linked(scenario, 0);
    lemma_reaches_on(graph, control, "user"@, Component::User.node_model().id, Component::CubeApi.node_model().id);
    lemma_linked(scenario, 1);
    lemma_reaches_on(graph, control, "user"@, Component::CubeApi.node_model().id, Component::CubeMaster.node_model().id);
    lemma_linked(scenario, 2);
    lemma_reaches_on(graph, control, "user"@, Component::CubeMaster.node_model().id, Component::Cubelet.node_model().id);
    let data = Some("data"@);
    lemma_reaches_itself(graph, data, "cubeapi"@);
    lemma_linked(scenario, 4);
    lemma_reaches_on(graph, data, "cubeapi"@, Component::CubeApi.node_model().id, Component::CubeProxy.node_model().id);
    lemma_linked(scenario, 5);
    lemma_reaches_on(graph, data, "cubeapi"@, Component::CubeProxy.node_model().id, Component::Envd.node_model().id);
}

proof fn lemma_snapshot_rollback_clone_is_connected(scenario: Seq<char>, k: int)
    requires
        scenario == "snapshot-rollback-clone"@,
        0 <= k < components(scenario).len(),
        !(components(scenario)[k] is HostDir),
    ensures
        reaches(topology(scenario), None, "user"@, components(scenario)[k].node_model().id),
        reaches(topology(scenario), Some("control"@), "user"@, "cubelet"@),
        reaches(topology(scenario), Some("data"@), "cubeapi"@, "envd"@),
{
    let graph = topology(scenario);
    lemma_names_differ();
    lemma_reaches_itself(graph, None, "user"@);
    lemma_linked(scenario, 0);
    lemma_reaches_on(
        graph,
        None,
        "user"@,
        Component::User.node_model().id,
        Component::CubeApi.node_model().id,
    );
    lemma_linked(scenario, 1);
    lemma_reaches_on(
        graph,
        None,
        "user"@,
        Component::CubeApi.node_model().id,
        Component::CubeMaster.node_model().id,
    );
    lemma_linked(scenario, 4);
    lemma_reaches_on(
        graph,
        None,
        "user"@,
        Component::CubeApi.node_model().id,
        Component::CubeProxy.node_model().id,
    );
    lemma_linked(scenario, 2);
    lemma_reaches_on(
        graph,
        None,
        "user"@,
        Component::CubeMaster.node_model().id,
        Component::Cubelet.node_model().id,
    );
    lemma_linked(scenario, 5);
    lemma_reaches_on(
        graph,
        None,
        "user"@,
        Component::CubeProxy.node_model().id,
        Component::Envd.node_model().id,
    );
    lemma_linked(scenario, 3);
    lemma_reaches_on(
        graph,
        None,
        "user"@,
        Component::Cubelet.node_model().id,
        Component::MicroVm.node_model().id,
    );
    lemma_linked(scenario, 7);
    lemma_reaches_on(
        graph,
        None,
        "user"@,
        Component::Cubelet.node_model().id,
        Component::Snapshot.node_model().id,
    );
    lemma_linked(scenario, 6);
    lemma_reaches_on(
        graph,
        None,
        "user"@,
        Component::Envd.node_model().id,
        Component::Runner.node_model().id,
    );
    let control = Some("control"@);
    lemma_reaches_itself(graph, control, "user"@);
    lemma_linked(scenario, 0);
    lemma_reaches_on(graph, control, "user"@, Component::User.node_model().id, Component::CubeApi.node_model().id);
    lemma_linked(scenario, 1);
    lemma_reaches_on(graph, control, "user"@, Component::CubeApi.node_model().id, Component::CubeMaster.node_model().id);
    lemma_linked(scenario, 2);
    lemma_reaches_on(graph, control, "user"@, Component::CubeMaster.node_model().id, Component::Cubelet.node_model().id);
    let data = Some("data"@);
    lemma_reaches_itself(graph, data, "cubeapi"@);
    lemma_linked(scenario, 4);
    lemma_reaches_on(graph, data, "cubeapi"@, Component::CubeApi.node_model().id, Component::CubeProxy.node_model().id);
    lemma_linked(scenario, 5);
    lemma_reaches_on(graph, data, "cubeapi"@, Component::CubeProxy.node_model().id, Component::Envd.node_model().id);
}

proof fn lemma_e2b_dev_sidecar_is_connected(scenario: Seq<char>, k: int)
    requires
        scenario == "e2b-dev-sidecar"@,
        0 <= k < components(scenario).len(),
        !(components(scenario)[k] is HostDir),
    ensures
        reaches(topology(scenario), None, "user"@, components(scenario)[k].node_model().id),
        reaches(topology(scenario), Some("control"@), "user"@, "cubelet"@),
        reaches(topology(scenario), Some("data"@), "cubeapi"@, "envd"@),
{
    let graph = topology(scenario);
    lemma_names_differ();
    lemma_reaches_itself(graph, None, "user"@);
    lemma_linked(scenario, 0);
    lemma_reaches_on(
        graph,
        None,
        "user"@,
        Component::User.node_model().id,
        Component::CubeApi.node_model().id,
    );
    lemma_linked(scenario, 1);
    lemma_reaches_on(
        graph,
        None,
        "user"@,
        Component::CubeApi.node_model().id,
        Component::CubeMaster.node_model().id,
    );
    lemma_linked(scenario, 6);
    lemma_reaches_on(
        graph,
        None,
        "user"@,
        Component::CubeApi.node_model().id,
        Component::Sidecar.node_model().id,
    );
    lemma_linked(scenario, 2);
    lemma_reaches_on(
        graph,
        None,
        "user"@,
        Component::CubeMaster.node_model().id,
        Component::Cubelet.node_model().id,
    );
    lemma_linked(scenario, 7);
    lemma_reaches_on(
        graph,
        None,
        "user"@,
        Component::Sidecar.node_model().id,
        Component::CubeProxy.node_model().id,
    );
    lemma_linked(scenario, 3);
    lemma_reaches_on(
        graph,
        None,
        "user"@,
        Component::Cubelet.node_model().id,
        Component::MicroVm.node_model().id,
    );
    lemma_linked(scenario, 4);
    lemma_reaches_on(
        graph,
        None,
        "user"@,
        Component::CubeProxy.node_model().id,
        Component::Envd.node_model().id,
    );
    lemma_linked(scenario, 5);
    lemma_reaches_on(
        graph,
        None,
        "user"@,
        Component::Envd.node_model().id,
        Component::Runner.node_model().id,
    );
    let control = Some("control"@);
    lemma_reaches_itself(graph, control, "user"@);
    lemma_linked(scenario, 0);
    lemma_reaches_on(graph, control, "user"@, Component::User.node_model().id, Component::CubeApi.node_model().id);
    lemma_linked(scenario, 1);
    lemma_reaches_on(graph, control, "user"@, Component::CubeApi.node_model().id, Component::CubeMaster.node_model().id);
    lemma_linked(scenario, 2);
    lemma_reaches_on(graph, control, "user"@, Component::CubeMaster.node_model().id, Component::Cubelet.node_model().id);
    let data = Some("data"@);
    lemma_reaches_itself(graph, data, "cubeapi"@);
    lemma_linked(scenario, 6);
    lemma_reaches_on(graph, data, "cubeapi"@, Component::CubeApi.node_model().id, Component::Sidecar.node_model().id);
    lemma_linked(scenario, 7);
    lemma_reaches_on(graph, data, "cubeapi"@, Component::Sidecar.node_model().id, Component::CubeProxy.node_model().id);
    lemma_linked(scenario, 4);
    lemma_reaches_on(graph, data, "cubeapi"@, Component::CubeProxy.node_model().id, Component::Envd.node_model().id);
}

proof fn lemma_cubesandbox_base_nginx_is_connected(scenario: Seq<char>, k: int)
    requires
        scenario == "cubesandbox-base-nginx"@,
        0 <= k < components(scenario).len(),
        !(components(scenario)[k] is HostDir),
    ensures
        reaches(topology(scenario), None, "user"@, components(scenario)[k].node_model().id),
        reaches(topology(scenario), Some("control"@), "user"@, "cubelet"@),
        reaches(topology(scenario), Some("data"@), "cubeapi"@, "envd"@),
{
    let graph = topology(scenario);
    lemma_names_differ();
    lemma_reaches_itself(graph, None, "user"@);
    lemma_linked(scenario, 0);
    lemma_reaches_on(
        graph,
        None,
        "user"@,
        Component::User.node_model().id,
        Component::CubeApi.node_model().id,
    );
    lemma_linked(scenario, 1);
    lemma_reaches_on(
        graph,
        None,
        "user"@,
        Component::CubeApi.node_model().id,
        Component::CubeMaster.node_model().id,
    );
    lemma_linked(scenario, 4);
    lemma_reaches_on(
        graph,
        None,
        "user"@,
        Component::CubeApi.node_model().id,
        Component::CubeProxy.node_model().id,
    );
    lemma_linked(scenario, 2);
    lemma_reaches_on(
        graph,
        None,
        "user"@,
        Component::CubeMaster.node_model().id,
        Component::Cubelet.node_model().id,
    );
    lemma_linked(scenario, 5);
    lemma_reaches_on(
        graph,
        None,
        "user"@,
        Component::CubeProxy.node_model().id,
        Component::Envd.node_model().id,
    );
    lemma_linked(scenario, 3);
    lemma_reaches_on(
        graph,
        None,
        "user"@,
        Component::Cubelet.node_model().id,
        Component::MicroVm.node_model().id,
    );
    lemma_linked(scenario, 6);
    lemma_reaches_on(
        graph,
        None,
        "user"@,
        Component::Envd.node_model().id,
        Component::Nginx.node_model().id,
    );
    let control = Some("control"@);
    lemma_reaches_itself(graph, control, "user"@);
    lemma_linked(scenario, 0);
    lemma_reaches_on(graph, control, "user"@, Component::User.node_model().id, Component::CubeApi.node_model().id);
    lemma_linked(scenario, 1);
    lemma_reaches_on(graph, control, "user"@, Component::CubeApi.node_model().id, Component::CubeMaster.node_model().id);
    lemma_linked(scenario, 2);
    lemma_reaches_on(graph, control, "user"@, Component::CubeMaster.node_model().id, Component::Cubelet.node_model().id);
    let data = Some("data"@);
    lemma_reaches_itself(graph, data, "cubeapi"@);
    lemma_linked(scenario, 4);
    lemma_reaches_on(graph, data, "cubeapi"@, Component::CubeApi.node_model().id, Component::CubeProxy.node_model().id);
    lemma_linked(scenario, 5);
    lemma_reaches_on(graph, data, "cubeapi"@, Component::CubeProxy.node_model().id, Component::Envd.node_model().id);
}

proof fn lemma_cube_bench_is_connected(scenario: Seq<char>, k: int)
    requires
        scenario == "cube-bench"@,
        0 <= k < components(scenario).len(),
        !(components(scenario)[k] is HostDir),
    ensures
        reaches(topology(scenario), None, "user"@, components(scenario)[k].node_model().id),
        reaches(topology(scenario), Some("control"@), "user"@, "cubelet"@),
        reaches(topology(scenario), Some("data"@), "cubeapi"@, "envd"@),
{
    let graph = topology(scenario);
    lemma_names_differ();
    lemma_reaches_itself(graph, None, "user"@);
    lemma_linked(scenario, 0);
    lemma_reaches_on(
        graph,
        None,
        "user"@,
        Component::User.node_model().id,
        Component::CubeApi.node_model().id,
    );
    lemma_linked(scenario, 1);
    lemma_reaches_on(
        graph,
        None,
        "user"@,
        Component::CubeApi.node_model().id,
        Component::CubeMaster.node_model().id,
    );
    lemma_linked(scenario, 3);
    lemma_reaches_on(
        graph,
        None,
        "user"@,
        Component::CubeApi.node_model().id,
        Component::CubeProxy.node_model().id,
    );
    lemma_linked(scenario, 2);
    lemma_reaches_on(
        graph,
        None,
        "user"@,
        Component::CubeMaster.node_model().id,
        Component::Cubelet.node_model().id,
    );
    lemma_linked(scenario, 4);
    lemma_reaches_on(
        graph,
        None,
        "user"@,
        Component::CubeProxy.node_model().id,
        Component::Envd.node_model().id,
    );
    lemma_linked(scenario, 6);
    lemma_reaches_on(
        graph,
        None,
        "user"@,
        Component::Cubelet.node_model().id,
        Component::BenchVm(0).node_model().id,
    );
    lemma_linked(scenario, 7);
    lemma_reaches_on(
        graph,
        None,
        "user"@,
        Component::Cubelet.node_model().id,
        Component::BenchVm(1).node_model().id,
    );
    lemma_linked(scenario, 8);
    lemma_reaches_on(
        graph,
        None,
        "user"@,
        Component::Cubelet.node_model().id,
        Component::BenchVm(2).node_model().id,
    );
    lemma_linked(scenario, 9);
    lemma_reaches_on(
        graph,
        None,
        "user"@,
        Component::Cubelet.node_model().id,
        Component::BenchVm(3).node_model().id,
    );
    lemma_linked(scenario, 5);
    lemma_reaches_on(
        graph,
        None,
        "user"@,
        Component::Envd.node_model().id,
        Component::Runner.node_model().id,
    );
    let control = Some("control"@);
    lemma_reaches_itself(graph, control, "user"@);
    lemma_linked(scenario, 0);
    lemma_reaches_on(graph, control, "user"@, Component::User.node_model().id, Component::CubeApi.node_model().id);
    lemma_linked(scenario, 1);
    lemma_reaches_on(graph, control, "user"@, Component::CubeApi.node_model().id, Component::CubeMaster.node_model().id);
    lemma_linked(scenario, 2);
    lemma_reaches_on(graph, control, "user"@, Component::CubeMaster.node_model().id, Component::Cubelet.node_model().id);
    let data = Some("data"@);
    lemma_reaches_itself(graph, data, "cubeapi"@);
    lemma_linked(scenario, 3);
    lemma_reaches_on(graph, data, "cubeapi"@, Component::CubeApi.node_model().id, Component::CubeProxy.node_model().id);
    lemma_linked(scenario, 4);
    lemma_reaches_on(graph, data, "cubeapi"@, Component::CubeProxy.node_model().id, Component::Envd.node_model().id);
}

proof fn lemma_base_is_connected(scenario: Seq<char>, k: int)
    requires
        scenario != "network-policy"@,
        scenario != "host-mount"@,
        scenario != "browser-sandbox"@,
        scenario != "snapshot-rollback-clone"@,
        scenario != "e2b-dev-sidecar"@,
        scenario != "cubesandbox-base-nginx"@,
        scenario != "cube-bench"@,
        0 <= k < components(scenario).len(),
        !(components(scenario)[k] is HostDir),
    ensures
        reaches(topology(scenario), None, "user"@, components(scenario)[k].node_model().id),
        reaches(topology(scenario), Some("control"@), "user"@, "cubelet"@),
        reaches(topology(scenario), Some("data"@), "cubeapi"@, "envd"@),
{
    let graph = topology(scenario);
    lemma_reaches_itself(graph, None, "user"@);
    lemma_linked(scenario, 0);
    lemma_reaches_on(
        graph,
        None,
        "user"@,
        Component::User.node_model().id,
        Component::CubeApi.node_model().id,
    );
    lemma_linked(scenario, 1);
    lemma_reaches_on(
        graph,
        None,
        "user"@,
        Component::CubeApi.node_model().id,
        Component::CubeMaster.node_model().id,
    );
    lemma_linked(scenario, 4);
    lemma_reaches_on(
        graph,
        None,
        "user"@,
        Component::CubeApi.node_model().id,
        Component::CubeProxy.node_model().id,
    );
    lemma_linked(scenario, 2);
    lemma_reaches_on(
        graph,
        None,
        "user"@,
        Component::CubeMaster.node_model().id,
        Component::Cubelet.node_model().id,
    );
    lemma_linked(scenario, 5);
    lemma_reaches_on(
        graph,
        None,
        "user"@,
        Component::CubeProxy.node_model().id,
        Component::Envd.node_model().id,
    );
    lemma_linked(scenario, 3);
    lemma_reaches_on(
        graph,
        None,
        "user"@,
        Component::Cubelet.node_model().id,
        Component::MicroVm.node_model().id,
    );
    lemma_linked(scenario, 6);
    lemma_reaches_on(
        graph,
        None,
        "user"@,
        Component::Envd.node_model().id,
        Component::Runner.node_model().id,
    );
    let control = Some("control"@);
    lemma_reaches_itself(graph, control, "user"@);
    lemma_linked(scenario, 0);
    lemma_reaches_on(graph, control, "user"@, Component::User.node_model().id, Component::CubeApi.node_model().id);
    lemma_linked(scenario, 1);
    lemma_reaches_on(graph, control, "user"@, Component::CubeApi.node_model().id, Component::CubeMaster.node_model().id);
    lemma_linked(scenario, 2);
    lemma_reaches_on(graph, control, "user"@, Component::CubeMaster.node_model().id, Component::Cubelet.node_model().id);
    let data = Some("data"@);
    lemma_reaches_itself(graph, data, "cubeapi"@);
    lemma_linked(scenario, 4);
    lemma_reaches_on(graph, data, "cubeapi"@, Component::CubeApi.node_model().id, Component::CubeProxy.node_model().id);
    lemma_linked(scenario, 5);
    lemma_reaches_on(graph, data, "cubeapi"@, Component::CubeProxy.node_model().id, Component::Envd.node_model().id);
}

/// Every component is reached from the user along the edges, but for the host directory,
/// which the MicroVM is given. The control plane leads from the user to a Cubelet, the
/// data plane from CubeAPI to `envd`.
pub proof fn lemma_every_component_is_reached(scenario: Seq<char>, k: int)
    requires
        0 <= k < topology(scenario).nodes.len(),
    ensures
        topology(scenario).nodes[k].id != "hostdir"@ ==> reaches(
            topology(scenario),
            None,
            "user"@,
            topology(scenario).nodes[k].id,
        ),
        reaches(topology(scenario), Some("control"@), "user"@, "cubelet"@),
        reaches(topology(scenario), Some("data"@), "cubeapi"@, "envd"@),
{
    let part = components(scenario)[k];
    if part is HostDir {
        lemma_reached_without_host_dir(scenario, 0);
    } else {
        lemma_reached_without_host_dir(scenario, k);
    }
}

proof fn lemma_reached_without_host_dir(scenario: Seq<char>, k: int)
    requires
        0 <= k < components(scenario).len(),
        !(components(scenario)[k] is HostDir),
    ensures
        reaches(topology(scenario), None, "user"@, components(scenario)[k].node_model().id),
        reaches(topology(scenario), Some("control"@), "user"@, "cubelet"@),
        reaches(topology(scenario), Some("data"@), "cubeapi"@, "envd"@),
{
    if scenario == "network-policy"@ {
        lemma_network_policy_is_connected(scenario, k);
    } else if scenario == "host-mount"@ {
        lemma_host_mount_is_connected(scenario, k);
    } else if scenario == "browser-sandbox"@ {
        lemma_browser_sandbox_is_connected(scenario, k);
    } else if scenario == "snapshot-rollback-clone"@ {
        lemma_snapshot_rollback_clone_is_connected(scenario, k);
    } else if scenario == "e2b-dev-sidecar"@ {
        lemma_e2b_dev_sidecar_is_connected(scenario, k);
    } else if scenario == "cubesandbox-base-nginx"@ {
        lemma_cubesandbox_base_nginx_is_connected(scenario, k);
    } else if scenario == "cube-bench"@ {
        lemma_cube_bench_is_connected(scenario, k);
    } else {
        lemma_base_is_connected(scenario, k);
    }
}

/// Every MicroVM is reached from the user.
pub proof fn lemma_every_vm_is_reached(scenario: Seq<char>, k: int)
    requires
        0 <= k < topology(scenario).nodes.len(),
        topology(scenario).nodes[k].kind == "vm"@,
    ensures
        reaches(topology(scenario), None, "user"@, topology(scenario).nodes[k].id),
{
    let part = components(scenario)[k];
    lemma_kinds(part);
    lemma_reached_without_host_dir(scenario, k);
}

/// Where a network policy is enforced, every way from the Cubelet to the MicroVM leads
/// through CubeVS.
pub proof fn lemma_policy_guards_the_vm(path: Seq<Seq<char>>)
    requires
        is_path(topology("network-policy"@), None, path),
        path[0] == "cubelet"@,
        path.last() == "microvm"@,
    ensures
        path.contains("cubevs"@),
{
    let scenario = "network-policy"@;
    let graph = topology(scenario);
    if !path.contains("cubevs"@) {
        let part = |id: Seq<char>| id == "cubelet"@;
        assert forall|i: int|
            0 <= i < graph.edges.len() && part((#[trigger] graph.edges[i]).from)
                && graph.edges[i].to != "cubevs"@ implies part(graph.edges[i].to) by {
            lemma_links_are_wires(scenario, i);
            let from = ends(scenario)[i].0;
            if from != Component::Cubelet {
                lemma_ids_differ(from, Component::Cubelet);
            }
        }
        lemma_path_stays(graph, path, part, "cubevs"@);
        lemma_ids_differ(Component::Cubelet, Component::MicroVm);
    }
}

/// With the development sidecar, every way from CubeAPI to the proxy leads through it.
pub proof fn lemma_sidecar_stands_before_the_proxy(path: Seq<Seq<char>>)
    requires
        is_path(topology("e2b-dev-sidecar"@), None, path),
        path[0] == "cubeapi"@,
        path.last() == "cubeproxy"@,
    ensures
        path.contains("sidecar"@),
{
    let scenario = "e2b-dev-sidecar"@;
    let graph = topology(scenario);
    if !path.contains("sidecar"@) {
        let part = |id: Seq<char>|
            id == "cubeapi"@ || id == "cubemaster"@ || id == "cubelet"@ || id == "microvm"@;
        assert forall|i: int|
            0 <= i < graph.edges.len() && part((#[trigger] graph.edges[i]).from)
                && graph.edges[i].to != "sidecar"@ implies part(graph.edges[i].to) by {
            lemma_names_differ();
            lemma_links_are_wires(scenario, i);
            let (from, to) = ends(scenario)[i];
            if !(from is CubeApi || from is CubeMaster || from is Cubelet) {
                lemma_ids_differ(from, Component::CubeApi);
                lemma_ids_differ(from, Component::CubeMaster);
                lemma_ids_differ(from, Component::Cubelet);
                lemma_ids_differ(from, Component::MicroVm);
            }
        }
        lemma_path_stays(graph, path, part, "sidecar"@);
        lemma_ids_differ(Component::CubeProxy, Component::CubeApi);
        lemma_ids_differ(Component::CubeProxy, Component::CubeMaster);
        lemma_ids_differ(Component::CubeProxy, Component::Cubelet);
        lemma_ids_differ(Component::CubeProxy, Component::MicroVm);
    }
}

/// What a scenario is about is in its graph: the datapath that guards the MicroVM, the
/// directory that it is given, the browser and its driver, the snapshot that it is
/// rolled back to, the sidecar, the web server, the four MicroVMs of the benchmark.
pub proof fn lemma_scenario_shows_its_own_parts()
    ensures
        has_edge(topology("network-policy"@), Some("data"@), "cubelet"@, "cubevs"@),
        has_edge(topology("network-policy"@), Some("data"@), "cubevs"@, "microvm"@),
        has_edge(topology("host-mount"@), Some("data"@), "hostdir"@, "microvm"@),
        has_edge(topology("browser-sandbox"@), Some("data"@), "envd"@, "playwright"@),
        has_edge(topology("browser-sandbox"@), Some("data"@), "playwright"@, "chromium"@),
        has_edge(topology("snapshot-rollback-clone"@), Some("control"@), "cubelet"@, "snapshot"@),
        has_edge(topology("snapshot-rollback-clone"@), Some("control"@), "snapshot"@, "microvm"@),
        has_edge(topology("e2b-dev-sidecar"@), Some("data"@), "cubeapi"@, "sidecar"@),
        has_edge(topology("e2b-dev-sidecar"@), Some("data"@), "sidecar"@, "cubeproxy"@),
        has_edge(topology("cubesandbox-base-nginx"@), Some("data"@), "envd"@, "nginx"@),
        forall|n: nat|
            n < 4 ==> has_edge(
                topology("cube-bench"@),
                Some("control"@),
                "cubelet"@,
                "microvm-"@ + #[trigger] text::decimal(n),
            ),
{
    lemma_names_differ();
    lemma_linked("network-policy"@, 6);
    lemma_linked("network-policy"@, 7);
    lemma_linked("host-mount"@, 7);
    lemma_linked("browser-sandbox"@, 6);
    lemma_linked("browser-sandbox"@, 7);
    lemma_linked("snapshot-rollback-clone"@, 7);
    lemma_linked("snapshot-rollback-clone"@, 8);
    lemma_linked("e2b-dev-sidecar"@, 6);
    lemma_linked("e2b-dev-sidecar"@, 7);
    lemma_linked("cubesandbox-base-nginx"@, 6);
    assert forall|n: nat| n < 4 implies has_edge(
        topology("cube-bench"@),
        Some("control"@),
        "cubelet"@,
        "microvm-"@ + #[trigger] text::decimal(n),
    ) by {
        lemma_linked("cube-bench"@, 6 + n as int);
        assert(ends("cube-bench"@)[6 + n as int].1 == Component::BenchVm(n as u8));
    }
}

/// A scenario without a graph of its own has the base graph.
pub proof fn lemma_other_scenarios_have_the_base_graph(scenario: Seq<char>)
    requires
        scenario != "network-policy"@,
        scenario != "host-mount"@,
        scenario != "browser-sandbox"@,
        scenario != "snapshot-rollback-clone"@,
        scenario != "e2b-dev-sidecar"@,
        scenario != "cubesandbox-base-nginx"@,
        scenario != "cube-bench"@,
    ensures
        topology(scenario) == topology("code-sandbox-quickstart"@),
{
    lemma_names_differ();
}

/// A run marks the user, the runner and Playwright with `[ok]` or `[err]`, in front of
/// what they say, and no other node.
pub proof fn lemma_status_is_shown(graph: GraphModel, success: bool, i: int)
    requires
        0 <= i < graph.nodes.len(),
    ensures
        ({
            let id = graph.nodes[i].id;
            let before = graph.nodes[i].description;
            let after = with_status(graph, success).nodes[i].description;
            if id == "user"@ || id == "runner"@ || id == "playwright"@ {
                after == (if success {
                    "[ok] "@
                } else {
                    "[err] "@
                }) + before
            } else {
                after == before
            }
        }),
{
    reveal_strlit("[");
    reveal_strlit("] ");
    reveal_strlit("ok");
    reveal_strlit("err");
    reveal_strlit("[ok] ");
    reveal_strlit("[err] ");
    assert("["@ + "ok"@ + "] "@ =~= "[ok] "@);
    assert("["@ + "err"@ + "] "@ =~= "[err] "@);
}

/// The parts that every scenario shares are connected in each: the user with CubeAPI,
/// that with CubeMaster, that with a Cubelet, the proxy with `envd`. `envd` starts the
/// runner, unless a browser or nginx takes its place; the Cubelet boots the MicroVM,
/// unless CubeVS stands between or there are several.
pub proof fn lemma_shared_parts_are_connected(scenario: Seq<char>)
    ensures
        has_edge(topology(scenario), Some("control"@), "user"@, "cubeapi"@),
        has_edge(topology(scenario), Some("control"@), "cubeapi"@, "cubemaster"@),
        has_edge(topology(scenario), Some("control"@), "cubemaster"@, "cubelet"@),
        has_edge(topology(scenario), Some("data"@), "cubeproxy"@, "envd"@),
        scenario != "browser-sandbox"@ && scenario != "cubesandbox-base-nginx"@ ==> has_edge(
            topology(scenario),
            Some("data"@),
            "envd"@,
            "runner"@,
        ),
        scenario != "network-policy"@ && scenario != "cube-bench"@ ==> has_edge(
            topology(scenario),
            Some("control"@),
            "cubelet"@,
            "microvm"@,
        ),
{
    lemma_names_differ();
    if scenario == "network-policy"@ {
        lemma_linked(scenario, 0);
        lemma_linked(scenario, 1);
        lemma_linked(scenario, 2);
        lemma_linked(scenario, 4);
        lemma_linked(scenario, 5);
    } else if scenario == "host-mount"@ {
        lemma_linked(scenario, 0);
        lemma_linked(scenario, 1);
        lemma_linked(scenario, 2);
        lemma_linked(scenario, 5);
        lemma_linked(scenario, 6);
        lemma_linked(scenario, 3);
    } else if scenario == "browser-sandbox"@ {
        lemma_linked(scenario, 0);
        lemma_linked(scenario, 1);
        lemma_linked(scenario, 2);
        lemma_linked(scenario, 5);
        lemma_linked(scenario, 3);
    } else if scenario == "snapshot-rollback-clone"@ {
        lemma_linked(scenario, 0);
        lemma_linked(scenario, 1);
        lemma_linked(scenario, 2);
        lemma_linked(scenario, 5);
        lemma_linked(scenario, 6);
        lemma_linked(scenario, 3);
    } else if scenario == "e2b-dev-sidecar"@ {
        lemma_linked(scenario, 0);
        lemma_linked(scenario, 1);
        lemma_linked(scenario, 2);
        lemma_linked(scenario, 4);
        lemma_linked(scenario, 5);
        lemma_linked(scenario, 3);
    } else if scenario == "cubesandbox-base-nginx"@ {
        lemma_linked(scenario, 0);
        lemma_linked(scenario, 1);
        lemma_linked(scenario, 2);
        lemma_linked(scenario, 5);
        lemma_linked(scenario, 3);
    } else if scenario == "cube-bench"@ {
        lemma_linked(scenario, 0);
        lemma_linked(scenario, 1);
        lemma_linked(scenario, 2);
        lemma_linked(scenario, 4);
        lemma_linked(scenario, 5);
    } else {
        lemma_linked(scenario, 0);
        lemma_linked(scenario, 1);
        lemma_linked(scenario, 2);
        lemma_linked(scenario, 5);
        lemma_linked(scenario, 6);
        lemma_linked(scenario, 3);
    }
}

/// A graph has no edge too many: one less than it has nodes, and with the snapshot,
/// which is another way to the MicroVM, one more.
pub proof fn lemma_no_edge_too_many(scenario: Seq<char>)
    ensures
        scenario != "snapshot-rollback-clone"@ ==> topology(scenario).edges.len() + 1 == topology(
            scenario,
        ).nodes.len(),
        topology("snapshot-rollback-clone"@).edges.len() == topology(
            "snapshot-rollback-clone"@,
        ).nodes.len(),
        topology("code-sandbox-quickstart"@).nodes.len() == 8,
        scenario == "network-policy"@ || scenario == "host-mount"@ || scenario
            == "browser-sandbox"@ || scenario == "snapshot-rollback-clone"@ || scenario
            == "e2b-dev-sidecar"@ ==> topology(scenario).nodes.len() == 9,
        topology("cubesandbox-base-nginx"@).nodes.len() == 8,
        topology("cube-bench"@).nodes.len() == 11,
{
    lemma_names_differ();
}

} // verus!
