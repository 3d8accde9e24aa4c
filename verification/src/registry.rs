//! The examples that the server offers, as a fixed registry.
//!
//! An example belongs to a scenario, a directory with files. Hidden scenarios stay
//! in the registry but are never offered.

use vstd::prelude::*;

use crate::topology;
use crate::topology::{GraphModel, TopologyTemplate};

verus! {

/// A file that can be run.
#[derive(Clone, Copy)]
pub struct FileSpec {
    pub id: &'static str,
    pub filename: &'static str,
    pub title: &'static str,
    pub description: &'static str,
    pub language: &'static str,
}

/// A scenario. A hidden one is left out of every answer.
pub struct ScenarioSpec {
    pub id: &'static str,
    pub category: &'static str,
    pub hidden: bool,
    pub files: Vec<FileSpec>,
    /// The time that a run may take, in seconds; 120 where absent.
    pub timeout_secs: Option<u64>,
    /// The graph of the scenario, before a run has marked it.
    pub topology: TopologyTemplate,
    /// The store catalog item whose image the scenario wants.
    pub store_item_id: Option<&'static str>,
}

/// What a [`ScenarioSpec`] holds.
pub struct ScenarioModel {
    pub id: &'static str,
    pub category: &'static str,
    pub hidden: bool,
    pub files: Seq<FileSpec>,
    pub timeout_secs: Option<u64>,
    pub topology: GraphModel,
    pub store_item_id: Option<&'static str>,
}

impl ScenarioSpec {
    pub open spec fn model(self) -> ScenarioModel {
        ScenarioModel {
            id: self.id,
            category: self.category,
            hidden: self.hidden,
            files: self.files@,
            timeout_secs: self.timeout_secs,
            topology: self.topology.model(),
            store_item_id: self.store_item_id,
        }
    }
}

/// What a row of scenarios holds.
pub open spec fn scenarios_model(scenarios: Seq<ScenarioSpec>) -> Seq<ScenarioModel> {
    scenarios.map_values(|scenario: ScenarioSpec| scenario.model())
}

// ------------------------------------------------------------------- languages

/// The language of each file, by `scenario:file`.
pub open spec fn languages() -> Seq<(&'static str, &'static str)> {
    seq![
        ("code-sandbox-quickstart:create", "python"),
        ("code-sandbox-quickstart:exec_code", "python"),
        ("code-sandbox-quickstart:cmd", "python"),
        ("code-sandbox-quickstart:read", "python"),
        ("code-sandbox-quickstart:pause", "python"),
        ("network-policy:network_no_internet", "python"),
        ("network-policy:network_allowlist", "python"),
        ("network-policy:network_denylist", "python"),
        ("host-mount:create_with_mount", "python"),
        ("browser-sandbox:browser", "python"),
        ("snapshot-rollback-clone:01_create_snapshot", "python"),
        ("snapshot-rollback-clone:02_list_snapshots", "python"),
        ("snapshot-rollback-clone:03_clone_from_snapshot", "python"),
        ("snapshot-rollback-clone:04_state_preserved", "python"),
        ("snapshot-rollback-clone:05_snapshot_outlives_sandbox", "python"),
        ("snapshot-rollback-clone:06_clone_n", "python"),
        ("snapshot-rollback-clone:07_clone_concurrent", "python"),
        ("snapshot-rollback-clone:08_fork_three_axis", "python"),
        ("snapshot-rollback-clone:09_rollback", "python"),
        ("snapshot-rollback-clone:10_rollback_then_continue", "python"),
        ("snapshot-rollback-clone:11_delete_snapshot", "python"),
        ("snapshot-rollback-clone:clone_demo", "python"),
        ("snapshot-rollback-clone:rollback_demo", "python"),
        ("e2b-dev-sidecar:demo", "python"),
        ("cubesandbox-base-nginx:test_files", "python"),
        ("cube-bench:main", "go"),
    ]
}

/// The language of each file, by `scenario:file`.
pub fn file_languages() -> (r: Vec<(&'static str, &'static str)>)
    ensures
        r@ == languages(),
{
    let r = vec![
        ("code-sandbox-quickstart:create", "python"),
        ("code-sandbox-quickstart:exec_code", "python"),
        ("code-sandbox-quickstart:cmd", "python"),
        ("code-sandbox-quickstart:read", "python"),
        ("code-sandbox-quickstart:pause", "python"),
        ("network-policy:network_no_internet", "python"),
        ("network-policy:network_allowlist", "python"),
        ("network-policy:network_denylist", "python"),
        ("host-mount:create_with_mount", "python"),
        ("browser-sandbox:browser", "python"),
        ("snapshot-rollback-clone:01_create_snapshot", "python"),
        ("snapshot-rollback-clone:02_list_snapshots", "python"),
        ("snapshot-rollback-clone:03_clone_from_snapshot", "python"),
        ("snapshot-rollback-clone:04_state_preserved", "python"),
        ("snapshot-rollback-clone:05_snapshot_outlives_sandbox", "python"),
        ("snapshot-rollback-clone:06_clone_n", "python"),
        ("snapshot-rollback-clone:07_clone_concurrent", "python"),
        ("snapshot-rollback-clone:08_fork_three_axis", "python"),
        ("snapshot-rollback-clone:09_rollback", "python"),
        ("snapshot-rollback-clone:10_rollback_then_continue", "python"),
        ("snapshot-rollback-clone:11_delete_snapshot", "python"),
        ("snapshot-rollback-clone:clone_demo", "python"),
        ("snapshot-rollback-clone:rollback_demo", "python"),
        ("e2b-dev-sidecar:demo", "python"),
        ("cubesandbox-base-nginx:test_files", "python"),
        ("cube-bench:main", "go"),
    ];
    assert(r@ =~= languages());
    r
}

// ----------------------------------------------------------------------- files

pub open spec fn file(
    id: &'static str,
    filename: &'static str,
    title: &'static str,
    description: &'static str,
    language: &'static str,
) -> FileSpec {
    FileSpec { id, filename, title, description, language }
}

fn new_file(
    id: &'static str,
    filename: &'static str,
    title: &'static str,
    description: &'static str,
    language: &'static str,
) -> (r: FileSpec)
    ensures
        r == file(id, filename, title, description, language),
{
    FileSpec { id, filename, title, description, language }
}

/// The files of the scenario `code-sandbox-quickstart`.
pub open spec fn code_sandbox_quickstart_files() -> Seq<FileSpec> {
    seq![
        file(
            "create",
            "create.py",
            "Create Sandbox",
            "Create a sandbox from a template and read its metadata.",
            "python",
        ),
        file(
            "exec_code",
            "exec_code.py",
            "Execute Code",
            "Run Python code inside the sandbox through the Jupyter kernel.",
            "python",
        ),
        file(
            "cmd",
            "cmd.py",
            "Run Shell Command",
            "Execute a shell command inside the sandbox and capture stdout.",
            "python",
        ),
        file(
            "read",
            "read.py",
            "Read / Write File",
            "Read and write files inside the sandbox filesystem.",
            "python",
        ),
        file(
            "pause",
            "pause.py",
            "Pause & Resume",
            "Pause a sandbox to freeze its memory and resume it later.",
            "python",
        ),
    ]
}

/// The files of the scenario `network-policy`.
pub open spec fn network_policy_files() -> Seq<FileSpec> {
    seq![
        file(
            "network_no_internet",
            "network_no_internet.py",
            "No Internet",
            "Sandbox without outbound network access.",
            "python",
        ),
        file(
            "network_allowlist",
            "network_allowlist.py",
            "Network Allowlist",
            "Restrict egress to an explicit list of IPs.",
            "python",
        ),
        file(
            "network_denylist",
            "network_denylist.py",
            "Network Denylist",
            "Default-allow with explicit deny entries.",
            "python",
        ),
    ]
}

/// The files of the scenario `host-mount`.
pub open spec fn host_mount_files() -> Seq<FileSpec> {
    seq![
        file(
            "create_with_mount",
            "create_with_mount.py",
            "Create With Mount",
            "Create a sandbox with a host directory mounted at /mnt.",
            "python",
        ),
    ]
}

/// The files of the scenario `browser-sandbox`.
pub open spec fn browser_sandbox_files() -> Seq<FileSpec> {
    seq![
        file(
            "browser",
            "browser.py",
            "Playwright + Chromium",
            "Boot a sandbox with Chromium and run a Playwright script.",
            "python",
        ),
    ]
}

/// The files of the scenario `snapshot-rollback-clone`.
pub open spec fn snapshot_rollback_clone_files() -> Seq<FileSpec> {
    seq![
        file(
            "01_create_snapshot",
            "01_create_snapshot.py",
            "01 Create Snapshot",
            "Capture a snapshot from a running sandbox.",
            "python",
        ),
        file(
            "02_list_snapshots",
            "02_list_snapshots.py",
            "02 List Snapshots",
            "List snapshots attached to the cluster.",
            "python",
        ),
        file(
            "03_clone_from_snapshot",
            "03_clone_from_snapshot.py",
            "03 Clone From Snapshot",
            "Create a new sandbox from a snapshot.",
            "python",
        ),
        file(
            "04_state_preserved",
            "04_state_preserved.py",
            "04 State Preserved",
            "Verify state survives the clone.",
            "python",
        ),
        file(
            "05_snapshot_outlives_sandbox",
            "05_snapshot_outlives_sandbox.py",
            "05 Snapshot Outlives",
            "Snapshot outlives its source sandbox.",
            "python",
        ),
        file(
            "06_clone_n",
            "06_clone_n.py",
            "06 Clone N Times",
            "Spin up N clones in sequence.",
            "python",
        ),
        file(
            "07_clone_concurrent",
            "07_clone_concurrent.py",
            "07 Clone Concurrently",
            "Spin up N clones in parallel.",
            "python",
        ),
        file(
            "08_fork_three_axis",
            "08_fork_three_axis.py",
            "08 Fork Three-axis",
            "Three orthogonal dimensions of clone/rollback.",
            "python",
        ),
        file(
            "09_rollback",
            "09_rollback.py",
            "09 Rollback",
            "Roll the sandbox back to a previous snapshot.",
            "python",
        ),
        file(
            "10_rollback_then_continue",
            "10_rollback_then_continue.py",
            "10 Rollback Then Continue",
            "Rollback, then resume normal execution.",
            "python",
        ),
        file(
            "11_delete_snapshot",
            "11_delete_snapshot.py",
            "11 Delete Snapshot",
            "Clean up a snapshot from the cluster.",
            "python",
        ),
        file(
            "clone_demo",
            "clone_demo.py",
            "Clone Demo",
            "End-to-end clone walkthrough.",
            "python",
        ),
        file(
            "rollback_demo",
            "rollback_demo.py",
            "Rollback Demo",
            "End-to-end rollback walkthrough.",
            "python",
        ),
    ]
}

/// The files of the scenario `e2b-dev-sidecar`.
pub open spec fn e2b_dev_sidecar_files() -> Seq<FileSpec> {
    seq![
        file(
            "demo",
            "demo.py",
            "Sidecar Demo",
            "Start a sidecar proxy in front of CubeAPI.",
            "python",
        ),
    ]
}

/// The files of the scenario `cubesandbox-base-nginx`.
pub open spec fn cubesandbox_base_nginx_files() -> Seq<FileSpec> {
    seq![
        file(
            "test_files",
            "test_files.py",
            "Test Files",
            "Reach the nginx-served files via the proxy.",
            "python",
        ),
    ]
}

/// The files of the scenario `cube-bench`.
pub open spec fn cube_bench_files() -> Seq<FileSpec> {
    seq![
        file(
            "main",
            "main.go",
            "Run Benchmark",
            "Spawn N sandboxes in parallel and report throughput.",
            "go",
        ),
    ]
}

fn list_code_sandbox_quickstart_files() -> (r: Vec<FileSpec>)
    ensures
        r@ == code_sandbox_quickstart_files(),
{
    let r = vec![
        new_file(
            "create",
            "create.py",
            "Create Sandbox",
            "Create a sandbox from a template and read its metadata.",
            "python",
        ),
        new_file(
            "exec_code",
            "exec_code.py",
            "Execute Code",
            "Run Python code inside the sandbox through the Jupyter kernel.",
            "python",
        ),
        new_file(
            "cmd",
            "cmd.py",
            "Run Shell Command",
            "Execute a shell command inside the sandbox and capture stdout.",
            "python",
        ),
        new_file(
            "read",
            "read.py",
            "Read / Write File",
            "Read and write files inside the sandbox filesystem.",
            "python",
        ),
        new_file(
            "pause",
            "pause.py",
            "Pause & Resume",
            "Pause a sandbox to freeze its memory and resume it later.",
            "python",
        ),
    ];
    assert(r@ =~= code_sandbox_quickstart_files());
    r
}

fn list_network_policy_files() -> (r: Vec<FileSpec>)
    ensures
        r@ == network_policy_files(),
{
    let r = vec![
        new_file(
            "network_no_internet",
            "network_no_internet.py",
            "No Internet",
            "Sandbox without outbound network access.",
            "python",
        ),
        new_file(
            "network_allowlist",
            "network_allowlist.py",
            "Network Allowlist",
            "Restrict egress to an explicit list of IPs.",
            "python",
        ),
        new_file(
            "network_denylist",
            "network_denylist.py",
            "Network Denylist",
            "Default-allow with explicit deny entries.",
            "python",
        ),
    ];
    assert(r@ =~= network_policy_files());
    r
}

fn list_host_mount_files() -> (r: Vec<FileSpec>)
    ensures
        r@ == host_mount_files(),
{
    let r = vec![
        new_file(
            "create_with_mount",
            "create_with_mount.py",
            "Create With Mount",
            "Create a sandbox with a host directory mounted at /mnt.",
            "python",
        ),
    ];
    assert(r@ =~= host_mount_files());
    r
}

fn list_browser_sandbox_files() -> (r: Vec<FileSpec>)
    ensures
        r@ == browser_sandbox_files(),
{
    let r = vec![
        new_file(
            "browser",
            "browser.py",
            "Playwright + Chromium",
            "Boot a sandbox with Chromium and run a Playwright script.",
            "python",
        ),
    ];
    assert(r@ =~= browser_sandbox_files());
    r
}

fn list_snapshot_rollback_clone_files() -> (r: Vec<FileSpec>)
    ensures
        r@ == snapshot_rollback_clone_files(),
{
    let r = vec![
        new_file(
            "01_create_snapshot",
            "01_create_snapshot.py",
            "01 Create Snapshot",
            "Capture a snapshot from a running sandbox.",
            "python",
        ),
        new_file(
            "02_list_snapshots",
            "02_list_snapshots.py",
            "02 List Snapshots",
            "List snapshots attached to the cluster.",
            "python",
        ),
        new_file(
            "03_clone_from_snapshot",
            "03_clone_from_snapshot.py",
            "03 Clone From Snapshot",
            "Create a new sandbox from a snapshot.",
            "python",
        ),
        new_file(
            "04_state_preserved",
            "04_state_preserved.py",
            "04 State Preserved",
            "Verify state survives the clone.",
            "python",
        ),
        new_file(
            "05_snapshot_outlives_sandbox",
            "05_snapshot_outlives_sandbox.py",
            "05 Snapshot Outlives",
            "Snapshot outlives its source sandbox.",
            "python",
        ),
        new_file(
            "06_clone_n",
            "06_clone_n.py",
            "06 Clone N Times",
            "Spin up N clones in sequence.",
            "python",
        ),
        new_file(
            "07_clone_concurrent",
            "07_clone_concurrent.py",
            "07 Clone Concurrently",
            "Spin up N clones in parallel.",
            "python",
        ),
        new_file(
            "08_fork_three_axis",
            "08_fork_three_axis.py",
            "08 Fork Three-axis",
            "Three orthogonal dimensions of clone/rollback.",
            "python",
        ),
        new_file(
            "09_rollback",
            "09_rollback.py",
            "09 Rollback",
            "Roll the sandbox back to a previous snapshot.",
            "python",
        ),
        new_file(
            "10_rollback_then_continue",
            "10_rollback_then_continue.py",
            "10 Rollback Then Continue",
            "Rollback, then resume normal execution.",
            "python",
        ),
        new_file(
            "11_delete_snapshot",
            "11_delete_snapshot.py",
            "11 Delete Snapshot",
            "Clean up a snapshot from the cluster.",
            "python",
        ),
        new_file(
            "clone_demo",
            "clone_demo.py",
            "Clone Demo",
            "End-to-end clone walkthrough.",
            "python",
        ),
        new_file(
            "rollback_demo",
            "rollback_demo.py",
            "Rollback Demo",
            "End-to-end rollback walkthrough.",
            "python",
        ),
    ];
    assert(r@ =~= snapshot_rollback_clone_files());
    r
}

fn list_e2b_dev_sidecar_files() -> (r: Vec<FileSpec>)
    ensures
        r@ == e2b_dev_sidecar_files(),
{
    let r = vec![
        new_file(
            "demo",
            "demo.py",
            "Sidecar Demo",
            "Start a sidecar proxy in front of CubeAPI.",
            "python",
        ),
    ];
    assert(r@ =~= e2b_dev_sidecar_files());
    r
}

fn list_cubesandbox_base_nginx_files() -> (r: Vec<FileSpec>)
    ensures
        r@ == cubesandbox_base_nginx_files(),
{
    let r = vec![
        new_file(
            "test_files",
            "test_files.py",
            "Test Files",
            "Reach the nginx-served files via the proxy.",
            "python",
        ),
    ];
    assert(r@ =~= cubesandbox_base_nginx_files());
    r
}

fn list_cube_bench_files() -> (r: Vec<FileSpec>)
    ensures
        r@ == cube_bench_files(),
{
    let r = vec![
        new_file(
            "main",
            "main.go",
            "Run Benchmark",
            "Spawn N sandboxes in parallel and report throughput.",
            "go",
        ),
    ];
    assert(r@ =~= cube_bench_files());
    r
}

// ------------------------------------------------------------------- scenarios

/// A scenario that is offered.
pub open spec fn visible(
    id: &'static str,
    category: &'static str,
    files: Seq<FileSpec>,
    timeout_secs: Option<u64>,
    store_item_id: &'static str,
) -> ScenarioModel {
    ScenarioModel {
        id,
        category,
        hidden: false,
        files,
        timeout_secs,
        topology: topology::topology(id@),
        store_item_id: Some(store_item_id),
    }
}

/// A scenario that is kept back: it has no files yet and the base graph.
pub open spec fn hidden(id: &'static str) -> ScenarioModel {
    ScenarioModel {
        id,
        category: "agent",
        hidden: true,
        files: seq![],
        timeout_secs: None,
        topology: topology::topology("code-sandbox-quickstart"@),
        store_item_id: None,
    }
}

/// The scenarios, in the order in which they are offered.
pub open spec fn registry() -> Seq<ScenarioModel> {
    seq![
        visible("code-sandbox-quickstart", "basics", code_sandbox_quickstart_files(), None, "sandbox-code"),
        visible("network-policy", "network", network_policy_files(), None, "sandbox-code"),
        visible("host-mount", "filesystem", host_mount_files(), None, "sandbox-code"),
        visible("browser-sandbox", "browser", browser_sandbox_files(), Some(600), "sandbox-browser"),
        visible("snapshot-rollback-clone", "lifecycle", snapshot_rollback_clone_files(), None, "sandbox-code"),
        visible("e2b-dev-sidecar", "advanced", e2b_dev_sidecar_files(), None, "sandbox-code"),
        visible("cubesandbox-base-nginx", "image", cubesandbox_base_nginx_files(), None, "sandbox-nginx"),
        visible("cube-bench", "perf", cube_bench_files(), None, "sandbox-code"),
        hidden("openclaw-integration"),
        hidden("openai-agents-example"),
        hidden("openai-agents-code-interpreter"),
        hidden("mini-rl-training"),
    ]
}

fn new_visible(
    id: &'static str,
    category: &'static str,
    files: Vec<FileSpec>,
    timeout_secs: Option<u64>,
    store_item_id: &'static str,
) -> (r: ScenarioSpec)
    ensures
        r.model() == visible(id, category, files@, timeout_secs, store_item_id),
{
    ScenarioSpec {
        id,
        category,
        hidden: false,
        files,
        timeout_secs,
        topology: topology::topology_for(id),
        store_item_id: Some(store_item_id),
    }
}

fn new_hidden(id: &'static str) -> (r: ScenarioSpec)
    ensures
        r.model() == hidden(id),
{
    let r = ScenarioSpec {
        id,
        category: "agent",
        hidden: true,
        files: Vec::new(),
        timeout_secs: None,
        topology: topology::topology_for("code-sandbox-quickstart"),
        store_item_id: None,
    };
    assert(r.files@ =~= seq![]);
    r
}

/// The scenarios, in the order in which they are offered.
pub fn scenario_registry() -> (r: Vec<ScenarioSpec>)
    ensures
        scenarios_model(r@) == registry(),
{
    let r = vec![
        new_visible("code-sandbox-quickstart", "basics", list_code_sandbox_quickstart_files(), None, "sandbox-code"),
        new_visible("network-policy", "network", list_network_policy_files(), None, "sandbox-code"),
        new_visible("host-mount", "filesystem", list_host_mount_files(), None, "sandbox-code"),
        new_visible("browser-sandbox", "browser", list_browser_sandbox_files(), Some(600), "sandbox-browser"),
        new_visible("snapshot-rollback-clone", "lifecycle", list_snapshot_rollback_clone_files(), None, "sandbox-code"),
        new_visible("e2b-dev-sidecar", "advanced", list_e2b_dev_sidecar_files(), None, "sandbox-code"),
        new_visible("cubesandbox-base-nginx", "image", list_cubesandbox_base_nginx_files(), None, "sandbox-nginx"),
        new_visible("cube-bench", "perf", list_cube_bench_files(), None, "sandbox-code"),
        new_hidden("openclaw-integration"),
        new_hidden("openai-agents-example"),
        new_hidden("openai-agents-code-interpreter"),
        new_hidden("mini-rl-training"),
    ];
    assert(scenarios_model(r@) =~= registry());
    r
}

// ------------------------------------------------------------------------ laws

/// The place in the table of a key that is in it.
spec fn key_place(key: Seq<char>) -> int {
    let n = key.len();
    if n == 15 {
        25
    } else if n == 20 {
        23
    } else if n == 23 {
        9
    } else if n == 27 {
        2
    } else if n == 28 && key[27] == 'd' {
        3
    } else if n == 28 && key[27] == 't' {
        8
    } else if n == 29 {
        4
    } else if n == 30 {
        0
    } else if n == 31 {
        7
    } else if n == 32 {
        6
    } else if n == 33 && key[32] == 'e' {
        1
    } else if n == 33 && key[32] == 's' {
        24
    } else if n == 34 && key[33] == 't' {
        5
    } else if n == 34 && key[33] == 'n' {
        15
    } else if n == 34 && key[33] == 'o' {
        21
    } else if n == 35 {
        18
    } else if n == 37 {
        22
    } else if n == 41 {
        11
    } else if n == 42 && key[30] == 'a' {
        10
    } else if n == 42 && key[41] == 'd' {
        13
    } else if n == 42 && key[41] == 's' {
        17
    } else if n == 42 && key[30] == 'e' {
        20
    } else if n == 43 {
        16
    } else if n == 46 {
        12
    } else if n == 49 {
        19
    } else if n == 52 {
        14
    } else {
        -1
    }
}

proof fn lemma_key_place(k: int)
    requires
        0 <= k < languages().len(),
    ensures
        key_place(languages()[k].0@) == k,
{
    if k == 0 {
        reveal_strlit("code-sandbox-quickstart:create");
        assert("code-sandbox-quickstart:create"@.len() == 30);
    } else if k == 1 {
        reveal_strlit("code-sandbox-quickstart:exec_code");
        assert("code-sandbox-quickstart:exec_code"@.len() == 33);
    } else if k == 2 {
        reveal_strlit("code-sandbox-quickstart:cmd");
        assert("code-sandbox-quickstart:cmd"@.len() == 27);
    } else if k == 3 {
        reveal_strlit("code-sandbox-quickstart:read");
        assert("code-sandbox-quickstart:read"@.len() == 28);
    } else if k == 4 {
        reveal_strlit("code-sandbox-quickstart:pause");
        assert("code-sandbox-quickstart:pause"@.len() == 29);
    } else if k == 5 {
        reveal_strlit("network-policy:network_no_internet");
        assert("network-policy:network_no_internet"@.len() == 34);
    } else if k == 6 {
        reveal_strlit("network-policy:network_allowlist");
        assert("network-policy:network_allowlist"@.len() == 32);
    } else if k == 7 {
        reveal_strlit("network-policy:network_denylist");
        assert("network-policy:network_denylist"@.len() == 31);
    } else if k == 8 {
        reveal_strlit("host-mount:create_with_mount");
        assert("host-mount:create_with_mount"@.len() == 28);
    } else if k == 9 {
        reveal_strlit("browser-sandbox:browser");
        assert("browser-sandbox:browser"@.len() == 23);
    } else if k == 10 {
        reveal_strlit("snapshot-rollback-clone:01_create_snapshot");
        assert("snapshot-rollback-clone:01_create_snapshot"@.len() == 42);
    } else if k == 11 {
        reveal_strlit("snapshot-rollback-clone:02_list_snapshots");
        assert("snapshot-rollback-clone:02_list_snapshots"@.len() == 41);
    } else if k == 12 {
        reveal_strlit("snapshot-rollback-clone:03_clone_from_snapshot");
        assert("snapshot-rollback-clone:03_clone_from_snapshot"@.len() == 46);
    } else if k == 13 {
        reveal_strlit("snapshot-rollback-clone:04_state_preserved");
        assert("snapshot-rollback-clone:04_state_preserved"@.len() == 42);
    } else if k == 14 {
        reveal_strlit("snapshot-rollback-clone:05_snapshot_outlives_sandbox");
        assert("snapshot-rollback-clone:05_snapshot_outlives_sandbox"@.len() == 52);
    } else if k == 15 {
        reveal_strlit("snapshot-rollback-clone:06_clone_n");
        assert("snapshot-rollback-clone:06_clone_n"@.len() == 34);
    } else if k == 16 {
        reveal_strlit("snapshot-rollback-clone:07_clone_concurrent");
        assert("snapshot-rollback-clone:07_clone_concurrent"@.len() == 43);
    } else if k == 17 {
        reveal_strlit("snapshot-rollback-clone:08_fork_three_axis");
        assert("snapshot-rollback-clone:08_fork_three_axis"@.len() == 42);
    } else if k == 18 {
        reveal_strlit("snapshot-rollback-clone:09_rollback");
        assert("snapshot-rollback-clone:09_rollback"@.len() == 35);
    } else if k == 19 {
        reveal_strlit("snapshot-rollback-clone:10_rollback_then_continue");
        assert("snapshot-rollback-clone:10_rollback_then_continue"@.len() == 49);
    } else if k == 20 {
        reveal_strlit("snapshot-rollback-clone:11_delete_snapshot");
        assert("snapshot-rollback-clone:11_delete_snapshot"@.len() == 42);
    } else if k == 21 {
        reveal_strlit("snapshot-rollback-clone:clone_demo");
        assert("snapshot-rollback-clone:clone_demo"@.len() == 34);
    } else if k == 22 {
        reveal_strlit("snapshot-rollback-clone:rollback_demo");
        assert("snapshot-rollback-clone:rollback_demo"@.len() == 37);
    } else if k == 23 {
        reveal_strlit("e2b-dev-sidecar:demo");
        assert("e2b-dev-sidecar:demo"@.len() == 20);
    } else if k == 24 {
        reveal_strlit("cubesandbox-base-nginx:test_files");
        assert("cubesandbox-base-nginx:test_files"@.len() == 33);
    } else {
        reveal_strlit("cube-bench:main");
        assert("cube-bench:main"@.len() == 15);
    }
}

/// The table has no key twice.
pub proof fn lemma_no_language_twice()
    ensures
        forall|i: int, j: int|
            0 <= i < j < languages().len() ==> (#[trigger] languages()[i]).0@ != (
            #[trigger] languages()[j]).0@,
{
    assert forall|i: int, j: int| 0 <= i < j < languages().len() implies (
    #[trigger] languages()[i]).0@ != (#[trigger] languages()[j]).0@ by {
        lemma_key_place(i);
        lemma_key_place(j);
    }
}

/// The graph of a scenario that is offered is its own, and so is the time of its runs:
/// two minutes are enough for all but the browser, which has ten.
pub proof fn lemma_scenario_has_its_own_graph(i: int)
    requires
        0 <= i < registry().len(),
        !registry()[i].hidden,
    ensures
        registry()[i].topology == topology::topology(registry()[i].id@),
        registry()[i].id@ == "browser-sandbox"@ ==> registry()[i].timeout_secs == Some(600u64),
        registry()[i].id@ != "browser-sandbox"@ ==> registry()[i].timeout_secs is None,
        registry()[i].files.len() > 0,
{
    reveal_strlit("browser-sandbox");
    reveal_strlit("code-sandbox-quickstart");
    reveal_strlit("network-policy");
    reveal_strlit("host-mount");
    reveal_strlit("snapshot-rollback-clone");
    reveal_strlit("e2b-dev-sidecar");
    reveal_strlit("cubesandbox-base-nginx");
    reveal_strlit("cube-bench");
    assert("browser-sandbox"@.len() == 15 && "browser-sandbox"@[0] == 'b');
    assert("e2b-dev-sidecar"@[0] == 'e');
    assert("code-sandbox-quickstart"@.len() == 23 && "network-policy"@.len() == 14);
    assert("host-mount"@.len() == 10 && "snapshot-rollback-clone"@.len() == 23);
    assert("cubesandbox-base-nginx"@.len() == 22 && "cube-bench"@.len() == 10);
}

/// A scenario wants the image that it is about: the browser one that of the browser,
/// the one with nginx that of nginx, every other that of the code interpreter.
pub proof fn lemma_scenario_wants_its_image(i: int)
    requires
        0 <= i < registry().len(),
        !registry()[i].hidden,
    ensures
        registry()[i].store_item_id matches Some(item) && item@ == (if registry()[i].id@
            == "browser-sandbox"@ {
            "sandbox-browser"@
        } else if registry()[i].id@ == "cubesandbox-base-nginx"@ {
            "sandbox-nginx"@
        } else {
            "sandbox-code"@
        }),
{
    lemma_scenario_has_its_own_graph(i);
    reveal_strlit("browser-sandbox");
    reveal_strlit("code-sandbox-quickstart");
    reveal_strlit("network-policy");
    reveal_strlit("host-mount");
    reveal_strlit("snapshot-rollback-clone");
    reveal_strlit("e2b-dev-sidecar");
    reveal_strlit("cubesandbox-base-nginx");
    reveal_strlit("cube-bench");
    assert("browser-sandbox"@.len() == 15 && "browser-sandbox"@[0] == 'b');
    assert("e2b-dev-sidecar"@.len() == 15 && "e2b-dev-sidecar"@[0] == 'e');
    assert("code-sandbox-quickstart"@.len() == 23 && "network-policy"@.len() == 14);
    assert("host-mount"@.len() == 10 && "snapshot-rollback-clone"@.len() == 23);
    assert("cubesandbox-base-nginx"@.len() == 22 && "cube-bench"@.len() == 10);
}

} // verus!
