//! Which examples there are, and which one a request means.

use vstd::prelude::*;
use vstd::string::StringExecFns;

use crate::registry;
use crate::registry::{FileSpec, ScenarioModel, ScenarioSpec};
use crate::text;
use crate::topology::TopologyGraph;

verus! {

// ----------------------------------------------------------------------- types

/// An example, as the front end sees it.
#[derive(Clone)]
pub struct ExampleMeta {
    /// Stable identifier, of the form `scenario:file`, such as
    /// `code-sandbox-quickstart:create`.
    pub id: String,
    /// The scenario, which is a directory, that the example lives in.
    pub scenario: String,
    /// The file in that directory.
    pub filename: String,
    pub title: String,
    pub description: String,
    pub category: String,
    /// python | go | bash | markdown.
    pub language: String,
    /// The store catalog item whose image the example wants.
    pub store_item_id: Option<String>,
}

/// The body of a request to run an example.
pub struct RunExampleRequest {
    pub id: String,
    /// The template to use; it comes before every configured one.
    pub template_id: Option<String>,
    /// The language that the editor shows. The interpreter does not depend on it:
    /// it follows from the extension of the file.
    pub language: Option<String>,
    /// Edited code, which runs in place of the file.
    pub code: Option<String>,
    /// The API that the script talks to.
    pub api_url: Option<String>,
    /// The proxy node that the script talks to.
    pub proxy_node_ip: Option<String>,
}

/// A step of a run.
#[derive(Clone)]
pub struct StepLog {
    pub name: String,
    /// "control" (CubeAPI / CubeMaster) or "data" (envd / sandbox runtime).
    pub plane: String,
    /// "ok" | "warn" | "err" | "skipped".
    pub status: String,
    pub duration_ms: u64,
    pub message: String,
}

/// What came of a run.
#[derive(Clone)]
pub struct RunExampleResponse {
    pub stdout: String,
    pub stderr: String,
    pub exit_code: i32,
    pub success: bool,
    pub elapsed_ms: u64,
    /// A small log of the run: parse, control-plane, data-plane, cleanup. It is made up
    /// from the course of the run, not measured step by step.
    pub steps: Vec<StepLog>,
    pub topology: TopologyGraph,
    pub ran_edited: bool,
}

/// What an [`ExampleMeta`] holds.
pub struct MetaModel {
    pub id: Seq<char>,
    pub scenario: Seq<char>,
    pub filename: Seq<char>,
    pub title: Seq<char>,
    pub description: Seq<char>,
    pub category: Seq<char>,
    pub language: Seq<char>,
    pub store_item_id: Option<Seq<char>>,
}

impl ExampleMeta {
    pub open spec fn model(self) -> MetaModel {
        MetaModel {
            id: self.id@,
            scenario: self.scenario@,
            filename: self.filename@,
            title: self.title@,
            description: self.description@,
            category: self.category@,
            language: self.language@,
            store_item_id: text::opt_text(self.store_item_id),
        }
    }
}

/// What a [`RunExampleRequest`] holds.
pub struct RequestModel {
    pub id: Seq<char>,
    pub template_id: Option<Seq<char>>,
    pub language: Option<Seq<char>>,
    pub code: Option<Seq<char>>,
    pub api_url: Option<Seq<char>>,
    pub proxy_node_ip: Option<Seq<char>>,
}

impl RunExampleRequest {
    pub open spec fn model(self) -> RequestModel {
        RequestModel {
            id: self.id@,
            template_id: text::opt_text(self.template_id),
            language: text::opt_text(self.language),
            code: text::opt_text(self.code),
            api_url: text::opt_text(self.api_url),
            proxy_node_ip: text::opt_text(self.proxy_node_ip),
        }
    }
}

/// What a row of examples holds.
pub open spec fn metas_model(metas: Seq<ExampleMeta>) -> Seq<MetaModel> {
    metas.map_values(|meta: ExampleMeta| meta.model())
}

// --------------------------------------------------------------------- listing

/// The identifier of a file of a scenario.
pub open spec fn full_id(scenario: Seq<char>, file: Seq<char>) -> Seq<char> {
    scenario + ":"@ + file
}

/// The language that a table gives for an identifier.
pub open spec fn language_in(langs: Seq<(&'static str, &'static str)>, id: Seq<char>) -> Option<
    &'static str,
>
    decreases langs.len(),
{
    if langs.len() == 0 {
        None
    } else if langs[0].0@ == id {
        Some(langs[0].1)
    } else {
        language_in(langs.drop_first(), id)
    }
}

/// A file of a scenario as an example. Its language is the one in the table, or
/// the file's own where the table has none.
pub open spec fn meta_of(
    scenario: ScenarioModel,
    file: FileSpec,
    langs: Seq<(&'static str, &'static str)>,
) -> MetaModel {
    MetaModel {
        id: full_id(scenario.id@, file.id@),
        scenario: scenario.id@,
        filename: file.filename@,
        title: file.title@,
        description: file.description@,
        category: scenario.category@,
        language: match language_in(langs, full_id(scenario.id@, file.id@)) {
            Some(language) => language@,
            None => file.language@,
        },
        store_item_id: match scenario.store_item_id {
            Some(item) => Some(item@),
            None => None,
        },
    }
}

/// The examples of a scenario.
pub open spec fn scenario_metas(
    scenario: ScenarioModel,
    langs: Seq<(&'static str, &'static str)>,
) -> Seq<MetaModel> {
    scenario.files.map_values(|file: FileSpec| meta_of(scenario, file, langs))
}

/// The examples of the scenarios that are not hidden, in order.
pub open spec fn visible_metas(
    scenarios: Seq<ScenarioModel>,
    langs: Seq<(&'static str, &'static str)>,
) -> Seq<MetaModel>
    decreases scenarios.len(),
{
    if scenarios.len() == 0 {
        seq![]
    } else {
        let before = visible_metas(scenarios.drop_last(), langs);
        if scenarios.last().hidden {
            before
        } else {
            before + scenario_metas(scenarios.last(), langs)
        }
    }
}

fn lookup_language(langs: &Vec<(&'static str, &'static str)>, id: &str) -> (r: Option<&'static str>)
    ensures
        r == language_in(langs@, id@),
{
    let mut i: usize = 0;
    assert(langs@.skip(0) =~= langs@);
    while i < langs.len()
        invariant
            i <= langs@.len(),
            language_in(langs@, id@) == language_in(langs@.skip(i as int), id@),
        decreases langs.len() - i,
    {
        assert(langs@.skip(i as int).drop_first() =~= langs@.skip(i + 1));
        if text::same(langs[i].0, id) {
            return Some(langs[i].1);
        }
        i += 1;
    }
    None
}

fn new_meta(
    scenario: &ScenarioSpec,
    file: &FileSpec,
    langs: &Vec<(&'static str, &'static str)>,
) -> (r: ExampleMeta)
    ensures
        r.model() == meta_of(scenario.model(), *file, langs@),
{
    let id = text::concat3(scenario.id, ":", file.id);
    let language = match lookup_language(langs, id.as_str()) {
        Some(language) => language,
        None => file.language,
    };
    ExampleMeta {
        id,
        scenario: String::from_str(scenario.id),
        filename: String::from_str(file.filename),
        title: String::from_str(file.title),
        description: String::from_str(file.description),
        category: String::from_str(scenario.category),
        language: String::from_str(language),
        store_item_id: match scenario.store_item_id {
            Some(item) => Some(String::from_str(item)),
            None => None,
        },
    }
}

/// The examples of the scenarios that are not hidden, in order.
pub fn list_visible_of(
    scenarios: &Vec<ScenarioSpec>,
    langs: &Vec<(&'static str, &'static str)>,
) -> (r: Vec<ExampleMeta>)
    ensures
        metas_model(r@) == visible_metas(registry::scenarios_model(scenarios@), langs@),
{
    let ghost all = registry::scenarios_model(scenarios@);
    let mut out: Vec<ExampleMeta> = Vec::new();
    let mut i: usize = 0;
    assert(all.take(0) =~= seq![]);
    while i < scenarios.len()
        invariant
            i <= scenarios@.len() == all.len(),
            all == registry::scenarios_model(scenarios@),
            metas_model(out@) =~= visible_metas(all.take(i as int), langs@),
        decreases scenarios.len() - i,
    {
        let scenario = &scenarios[i];
        let ghost before = out@;
        assert(all.take(i + 1).drop_last() =~= all.take(i as int));
        assert(all.take(i + 1).last() == scenario.model());
        if !scenario.hidden {
            let mut j: usize = 0;
            while j < scenario.files.len()
                invariant
                    j <= scenario.files@.len(),
                    metas_model(out@) =~= metas_model(before) + scenario_metas(
                        scenario.model(),
                        langs@,
                    ).take(j as int),
                decreases scenario.files.len() - j,
            {
                let ghost earlier = out@;
                out.push(new_meta(scenario, &scenario.files[j], langs));
                assert(metas_model(out@) =~= metas_model(earlier).push(out@.last().model()));
                j += 1;
            }
            assert(scenario_metas(scenario.model(), langs@).take(j as int) =~= scenario_metas(
                scenario.model(),
                langs@,
            ));
        }
        i += 1;
    }
    assert(all.take(i as int) =~= all);
    out
}

/// The examples that are offered.
pub fn list_visible() -> (r: Vec<ExampleMeta>)
    ensures
        metas_model(r@) == visible_metas(registry::registry(), registry::languages()),
{
    list_visible_of(&registry::scenario_registry(), &registry::file_languages())
}

// ------------------------------------------------------------------- resolving

/// The place of the file with that identifier, or the number of files.
pub open spec fn file_place(files: Seq<FileSpec>, id: Seq<char>) -> int
    decreases files.len(),
{
    if files.len() == 0 || files[0].id@ == id {
        0
    } else {
        1 + file_place(files.drop_first(), id)
    }
}

/// The place of the first scenario that is not hidden, has that identifier and
/// has such a file, or the number of scenarios.
pub open spec fn scenario_place(
    scenarios: Seq<ScenarioModel>,
    scenario: Seq<char>,
    file: Seq<char>,
) -> int
    decreases scenarios.len(),
{
    if scenarios.len() == 0 {
        0
    } else {
        let first = scenarios[0];
        if !first.hidden && first.id@ == scenario && file_place(first.files, file)
            < first.files.len() {
            0
        } else {
            1 + scenario_place(scenarios.drop_first(), scenario, file)
        }
    }
}

/// The scenario and the file that an identifier `scenario:file` means.
pub open spec fn resolved(scenarios: Seq<ScenarioModel>, id: Seq<char>) -> Option<
    (ScenarioModel, FileSpec),
> {
    match text::split_first(id, ':') {
        Some((scenario, file)) => {
            let i = scenario_place(scenarios, scenario, file);
            if i < scenarios.len() {
                Some((scenarios[i], scenarios[i].files[file_place(scenarios[i].files, file)]))
            } else {
                None
            }
        },
        None => None,
    }
}

fn find_file(files: &Vec<FileSpec>, id: &str) -> (r: usize)
    ensures
        r == file_place(files@, id@),
        r <= files@.len(),
{
    let mut i: usize = 0;
    assert(files@.skip(0) =~= files@);
    while i < files.len()
        invariant
            i <= files@.len(),
            file_place(files@, id@) == i + file_place(files@.skip(i as int), id@),
        decreases files.len() - i,
    {
        assert(files@.skip(i as int).drop_first() =~= files@.skip(i + 1));
        if text::same(files[i].id, id) {
            return i;
        }
        i += 1;
    }
    i
}

/// The example that an identifier means among some scenarios, with its scenario
/// and its file.
pub fn resolve_visible_of(
    scenarios: Vec<ScenarioSpec>,
    langs: &Vec<(&'static str, &'static str)>,
    id: &str,
) -> (r: Option<(ExampleMeta, ScenarioSpec, FileSpec)>)
    ensures
        match r {
            Some((meta, scenario, file)) => {
                &&& resolved(registry::scenarios_model(scenarios@), id@) == Some(
                    (scenario.model(), file),
                )
                &&& meta.model() == meta_of(scenario.model(), file, langs@)
            },
            None => resolved(registry::scenarios_model(scenarios@), id@) is None,
        },
{
    let (scenario_id, file_id) = match text::split_once(id, ':') {
        Some(parts) => parts,
        None => {
            return None;
        },
    };
    let ghost all = registry::scenarios_model(scenarios@);
    let mut rest = scenarios;
    let mut i: usize = 0;
    assert(all.skip(0) =~= all);
    while i < rest.len()
        invariant
            i <= rest@.len() == all.len(),
            all == registry::scenarios_model(scenarios@),
            rest@ == scenarios@,
            scenario_place(all, scenario_id@, file_id@) == i + scenario_place(
                all.skip(i as int),
                scenario_id@,
                file_id@,
            ),
            text::split_first(id@, ':') == Some((scenario_id@, file_id@)),
        ensures
            i == all.len(),
        decreases rest.len() - i,
    {
        assert(all.skip(i as int).drop_first() =~= all.skip(i + 1));
        assert(all.skip(i as int)[0] == rest@[i as int].model());
        if !rest[i].hidden && text::same(rest[i].id, scenario_id) {
            let j: usize = find_file(&rest[i].files, file_id);
            if j < rest[i].files.len() {
                let scenario = rest.swap_remove(i);
                let file = scenario.files[j];
                let meta = new_meta(&scenario, &file, langs);
                return Some((meta, scenario, file));
            }
        }
        i += 1;
    }
    None
}

/// The example that an identifier means, with its scenario and its file. Hidden
/// scenarios have none.
pub fn resolve_visible(id: &str) -> (r: Option<(ExampleMeta, ScenarioSpec, FileSpec)>)
    ensures
        match r {
            Some((meta, scenario, file)) => {
                &&& resolved(registry::registry(), id@) == Some((scenario.model(), file))
                &&& meta.model() == meta_of(scenario.model(), file, registry::languages())
            },
            None => resolved(registry::registry(), id@) is None,
        },
{
    resolve_visible_of(registry::scenario_registry(), &registry::file_languages(), id)
}

// ------------------------------------------------------------------------ laws

/// A registry in which an identifier means one thing: no scenario twice, no colon
/// in the identifier of a scenario, no file twice in a scenario.
pub open spec fn is_sound(scenarios: Seq<ScenarioModel>) -> bool {
    &&& forall|i: int, j: int|
        0 <= i < j < scenarios.len() ==> (#[trigger] scenarios[i]).id@ != (
        #[trigger] scenarios[j]).id@
    &&& forall|i: int| 0 <= i < scenarios.len() ==> !(#[trigger] scenarios[i]).id@.contains(':')
    &&& forall|i: int| 0 <= i < scenarios.len() ==> files_differ((#[trigger] scenarios[i]).files)
}

/// No identifier twice.
pub open spec fn files_differ(files: Seq<FileSpec>) -> bool {
    forall|i: int, j: int|
        0 <= i < j < files.len() ==> (#[trigger] files[i]).id@ != (#[trigger] files[j]).id@
}

/// The identifier of an example falls apart into its scenario and its file.
pub proof fn lemma_full_id_splits(scenario: Seq<char>, file: Seq<char>)
    requires
        !scenario.contains(':'),
    ensures
        text::split_first(full_id(scenario, file), ':') == Some((scenario, file)),
{
    reveal_strlit(":");
    let id = full_id(scenario, file);
    let n = scenario.len() as int;
    assert(id[n] == ':');
    assert forall|k: int| 0 <= k < n implies id[k] != ':' by {
        assert(id[k] == scenario[k]);
    }
    text::lemma_index_of_first(id, ':', n);
    assert(id.take(n) =~= scenario);
    assert(id.skip(n + 1) =~= file);
}

proof fn lemma_file_place(files: Seq<FileSpec>, id: Seq<char>)
    ensures
        0 <= file_place(files, id) <= files.len(),
        file_place(files, id) < files.len() ==> files[file_place(files, id)].id@ == id,
        forall|k: int| 0 <= k < file_place(files, id) ==> (#[trigger] files[k]).id@ != id,
    decreases files.len(),
{
    if files.len() > 0 && files[0].id@ != id {
        let rest = files.drop_first();
        lemma_file_place(rest, id);
        assert forall|k: int| 0 <= k < file_place(files, id) implies (#[trigger] files[k]).id@
            != id by {
            if k > 0 {
                assert(files[k] == rest[k - 1]);
            }
        }
    }
}

spec fn holds(scenario: ScenarioModel, id: Seq<char>, file: Seq<char>) -> bool {
    !scenario.hidden && scenario.id@ == id && file_place(scenario.files, file)
        < scenario.files.len()
}

proof fn lemma_scenario_place(scenarios: Seq<ScenarioModel>, id: Seq<char>, file: Seq<char>)
    ensures
        0 <= scenario_place(scenarios, id, file) <= scenarios.len(),
        scenario_place(scenarios, id, file) < scenarios.len() ==> holds(
            scenarios[scenario_place(scenarios, id, file)],
            id,
            file,
        ),
        forall|k: int|
            0 <= k < scenario_place(scenarios, id, file) ==> !holds(
                #[trigger] scenarios[k],
                id,
                file,
            ),
    decreases scenarios.len(),
{
    if scenarios.len() > 0 && !holds(scenarios[0], id, file) {
        let rest = scenarios.drop_first();
        lemma_scenario_place(rest, id, file);
        assert forall|k: int| 0 <= k < scenario_place(scenarios, id, file) implies !holds(
            #[trigger] scenarios[k],
            id,
            file,
        ) by {
            if k > 0 {
                assert(scenarios[k] == rest[k - 1]);
            }
        }
    }
}

/// The identifier of a file of a scenario that is not hidden means that file.
pub proof fn lemma_visible_file_resolves(scenarios: Seq<ScenarioModel>, i: int, j: int)
    requires
        is_sound(scenarios),
        0 <= i < scenarios.len(),
        !scenarios[i].hidden,
        0 <= j < scenarios[i].files.len(),
    ensures
        resolved(scenarios, full_id(scenarios[i].id@, scenarios[i].files[j].id@)) == Some(
            (scenarios[i], scenarios[i].files[j]),
        ),
{
    let scenario = scenarios[i];
    let file = scenario.files[j];
    lemma_full_id_splits(scenario.id@, file.id@);
    lemma_file_place(scenario.files, file.id@);
    let place = file_place(scenario.files, file.id@);
    if place < j {
        assert(scenario.files[place].id@ != scenario.files[j].id@);
    }
    assert(place == j);
    assert(holds(scenario, scenario.id@, file.id@));
    lemma_scenario_place(scenarios, scenario.id@, file.id@);
    let at = scenario_place(scenarios, scenario.id@, file.id@);
    if at < i {
        assert(scenarios[at].id@ != scenarios[i].id@);
    }
    assert(at == i);
}

/// Where an identifier means a file, the scenario is one of the registry's and not
/// hidden, the file is one of its files, the identifier is theirs, and the example
/// is listed.
pub proof fn lemma_resolved_is_listed(
    scenarios: Seq<ScenarioModel>,
    langs: Seq<(&'static str, &'static str)>,
    id: Seq<char>,
)
    ensures
        resolved(scenarios, id) matches Some((scenario, file)) ==> {
            &&& scenarios.contains(scenario)
            &&& !scenario.hidden
            &&& scenario.files.contains(file)
            &&& id == full_id(scenario.id@, file.id@)
            &&& visible_metas(scenarios, langs).contains(meta_of(scenario, file, langs))
        },
{
    if let Some((scenario, file)) = resolved(scenarios, id) {
        let (scenario_id, file_id) = text::split_first(id, ':')->0;
        id.index_of_first_ensures(':');
        reveal_strlit(":");
        assert(id =~= full_id(scenario_id, file_id));
        lemma_scenario_place(scenarios, scenario_id, file_id);
        let i = scenario_place(scenarios, scenario_id, file_id);
        lemma_file_place(scenario.files, file_id);
        let j = file_place(scenario.files, file_id);
        lemma_visible_file_listed(scenarios, langs, i, j);
    }
}

/// The file of a scenario that is not hidden is listed.
pub proof fn lemma_visible_file_listed(
    scenarios: Seq<ScenarioModel>,
    langs: Seq<(&'static str, &'static str)>,
    i: int,
    j: int,
)
    requires
        0 <= i < scenarios.len(),
        !scenarios[i].hidden,
        0 <= j < scenarios[i].files.len(),
    ensures
        visible_metas(scenarios, langs).contains(
            meta_of(scenarios[i], scenarios[i].files[j], langs),
        ),
    decreases scenarios.len(),
{
    let meta = meta_of(scenarios[i], scenarios[i].files[j], langs);
    let all = visible_metas(scenarios, langs);
    let before = visible_metas(scenarios.drop_last(), langs);
    if i < scenarios.len() - 1 {
        assert(scenarios.drop_last()[i] == scenarios[i]);
        lemma_visible_file_listed(scenarios.drop_last(), langs, i, j);
        let k = choose|k: int| 0 <= k < before.len() && before[k] == meta;
        assert(all[k] == meta);
    } else {
        let own = scenario_metas(scenarios.last(), langs);
        assert(own[j] == meta);
        assert(all[before.len() + j] == meta);
    }
}

/// Every listed example is what its identifier means; in particular no hidden
/// scenario is listed.
pub proof fn lemma_listed_resolves(
    scenarios: Seq<ScenarioModel>,
    langs: Seq<(&'static str, &'static str)>,
    k: int,
)
    requires
        is_sound(scenarios),
        0 <= k < visible_metas(scenarios, langs).len(),
    ensures
        resolved(scenarios, visible_metas(scenarios, langs)[k].id) matches Some((scenario, file))
            && !scenario.hidden && meta_of(scenario, file, langs) == visible_metas(
            scenarios,
            langs,
        )[k],
{
    let (i, j) = lemma_listed_has_file(scenarios, langs, k);
    lemma_visible_file_resolves(scenarios, i, j);
}

proof fn lemma_listed_has_file(
    scenarios: Seq<ScenarioModel>,
    langs: Seq<(&'static str, &'static str)>,
    k: int,
) -> (place: (int, int))
    requires
        0 <= k < visible_metas(scenarios, langs).len(),
    ensures
        0 <= place.0 < scenarios.len(),
        !scenarios[place.0].hidden,
        0 <= place.1 < scenarios[place.0].files.len(),
        visible_metas(scenarios, langs)[k] == meta_of(
            scenarios[place.0],
            scenarios[place.0].files[place.1],
            langs,
        ),
    decreases scenarios.len(),
{
    let rest = scenarios.drop_last();
    let before = visible_metas(rest, langs);
    if k < before.len() {
        let place = lemma_listed_has_file(rest, langs, k);
        assert(rest[place.0] == scenarios[place.0]);
        place
    } else {
        (scenarios.len() - 1, k - before.len())
    }
}

/// The identifiers of the registry's scenarios have no colon.
proof fn lemma_scenarios_have_no_colon(i: int)
    requires
        0 <= i < registry::registry().len(),
    ensures
        !registry::registry()[i].id@.contains(':'),
{
    let id = registry::registry()[i].id@;
    reveal_strlit("code-sandbox-quickstart");
    reveal_strlit("network-policy");
    reveal_strlit("host-mount");
    reveal_strlit("browser-sandbox");
    reveal_strlit("snapshot-rollback-clone");
    reveal_strlit("e2b-dev-sidecar");
    reveal_strlit("cubesandbox-base-nginx");
    reveal_strlit("cube-bench");
    reveal_strlit("openclaw-integration");
    reveal_strlit("openai-agents-example");
    reveal_strlit("openai-agents-code-interpreter");
    reveal_strlit("mini-rl-training");
    assert forall|k: int| 0 <= k < id.len() implies id[k] != ':' by {}
}

/// The identifiers of the registry's scenarios differ.
proof fn lemma_scenarios_differ(i: int, j: int)
    requires
        0 <= i < j < registry::registry().len(),
    ensures
        registry::registry()[i].id@ != registry::registry()[j].id@,
{
    reveal_strlit("code-sandbox-quickstart");
    reveal_strlit("network-policy");
    reveal_strlit("host-mount");
    reveal_strlit("browser-sandbox");
    reveal_strlit("snapshot-rollback-clone");
    reveal_strlit("e2b-dev-sidecar");
    reveal_strlit("cubesandbox-base-nginx");
    reveal_strlit("cube-bench");
    reveal_strlit("openclaw-integration");
    reveal_strlit("openai-agents-example");
    reveal_strlit("openai-agents-code-interpreter");
    reveal_strlit("mini-rl-training");
    assert("code-sandbox-quickstart"@.len() == 23 && "code-sandbox-quickstart"@[0] == 'c' && "code-sandbox-quickstart"@[1] == 'o' && "code-sandbox-quickstart"@[22] == 't');
    assert("network-policy"@.len() == 14 && "network-policy"@[0] == 'n' && "network-policy"@[1] == 'e' && "network-policy"@[13] == 'y');
    assert("host-mount"@.len() == 10 && "host-mount"@[0] == 'h' && "host-mount"@[1] == 'o' && "host-mount"@[9] == 't');
    assert("browser-sandbox"@.len() == 15 && "browser-sandbox"@[0] == 'b' && "browser-sandbox"@[1] == 'r' && "browser-sandbox"@[14] == 'x');
    assert("snapshot-rollback-clone"@.len() == 23 && "snapshot-rollback-clone"@[0] == 's' && "snapshot-rollback-clone"@[1] == 'n' && "snapshot-rollback-clone"@[22] == 'e');
    assert("e2b-dev-sidecar"@.len() == 15 && "e2b-dev-sidecar"@[0] == 'e' && "e2b-dev-sidecar"@[1] == '2' && "e2b-dev-sidecar"@[14] == 'r');
    assert("cubesandbox-base-nginx"@.len() == 22 && "cubesandbox-base-nginx"@[0] == 'c' && "cubesandbox-base-nginx"@[1] == 'u' && "cubesandbox-base-nginx"@[21] == 'x');
    assert("cube-bench"@.len() == 10 && "cube-bench"@[0] == 'c' && "cube-bench"@[1] == 'u' && "cube-bench"@[9] == 'h');
    assert("openclaw-integration"@.len() == 20 && "openclaw-integration"@[0] == 'o' && "openclaw-integration"@[1] == 'p' && "openclaw-integration"@[19] == 'n');
    assert("openai-agents-example"@.len() == 21 && "openai-agents-example"@[0] == 'o' && "openai-agents-example"@[1] == 'p' && "openai-agents-example"@[20] == 'e');
    assert("openai-agents-code-interpreter"@.len() == 30 && "openai-agents-code-interpreter"@[0] == 'o' && "openai-agents-code-interpreter"@[1] == 'p' && "openai-agents-code-interpreter"@[29] == 'r');
    assert("mini-rl-training"@.len() == 16 && "mini-rl-training"@[0] == 'm' && "mini-rl-training"@[1] == 'i' && "mini-rl-training"@[15] == 'g');
}

proof fn lemma_code_sandbox_quickstart_files_differ()
    ensures
        files_differ(registry::code_sandbox_quickstart_files()),
{
    reveal_strlit("create");
    reveal_strlit("exec_code");
    reveal_strlit("cmd");
    reveal_strlit("read");
    reveal_strlit("pause");
    assert("create"@.len() == 6 && "create"@[0] == 'c' && "create"@[1] == 'r' && "create"@[5] == 'e');
    assert("exec_code"@.len() == 9 && "exec_code"@[0] == 'e' && "exec_code"@[1] == 'x' && "exec_code"@[8] == 'e');
    assert("cmd"@.len() == 3 && "cmd"@[0] == 'c' && "cmd"@[1] == 'm' && "cmd"@[2] == 'd');
    assert("read"@.len() == 4 && "read"@[0] == 'r' && "read"@[1] == 'e' && "read"@[3] == 'd');
    assert("pause"@.len() == 5 && "pause"@[0] == 'p' && "pause"@[1] == 'a' && "pause"@[4] == 'e');
}

proof fn lemma_network_policy_files_differ()
    ensures
        files_differ(registry::network_policy_files()),
{
    reveal_strlit("network_no_internet");
    reveal_strlit("network_allowlist");
    reveal_strlit("network_denylist");
    assert("network_no_internet"@.len() == 19 && "network_no_internet"@[0] == 'n' && "network_no_internet"@[1] == 'e' && "network_no_internet"@[18] == 't');
    assert("network_allowlist"@.len() == 17 && "network_allowlist"@[0] == 'n' && "network_allowlist"@[1] == 'e' && "network_allowlist"@[16] == 't');
    assert("network_denylist"@.len() == 16 && "network_denylist"@[0] == 'n' && "network_denylist"@[1] == 'e' && "network_denylist"@[15] == 't');
}

proof fn lemma_snapshot_rollback_clone_files_differ()
    ensures
        files_differ(registry::snapshot_rollback_clone_files()),
{
    reveal_strlit("01_create_snapshot");
    reveal_strlit("02_list_snapshots");
    reveal_strlit("03_clone_from_snapshot");
    reveal_strlit("04_state_preserved");
    reveal_strlit("05_snapshot_outlives_sandbox");
    reveal_strlit("06_clone_n");
    reveal_strlit("07_clone_concurrent");
    reveal_strlit("08_fork_three_axis");
    reveal_strlit("09_rollback");
    reveal_strlit("10_rollback_then_continue");
    reveal_strlit("11_delete_snapshot");
    reveal_strlit("clone_demo");
    reveal_strlit("rollback_demo");
    assert("01_create_snapshot"@.len() == 18 && "01_create_snapshot"@[0] == '0' && "01_create_snapshot"@[1] == '1' && "01_create_snapshot"@[17] == 't');
    assert("02_list_snapshots"@.len() == 17 && "02_list_snapshots"@[0] == '0' && "02_list_snapshots"@[1] == '2' && "02_list_snapshots"@[16] == 's');
    assert("03_clone_from_snapshot"@.len() == 22 && "03_clone_from_snapshot"@[0] == '0' && "03_clone_from_snapshot"@[1] == '3' && "03_clone_from_snapshot"@[21] == 't');
    assert("04_state_preserved"@.len() == 18 && "04_state_preserved"@[0] == '0' && "04_state_preserved"@[1] == '4' && "04_state_preserved"@[17] == 'd');
    assert("05_snapshot_outlives_sandbox"@.len() == 28 && "05_snapshot_outlives_sandbox"@[0] == '0' && "05_snapshot_outlives_sandbox"@[1] == '5' && "05_snapshot_outlives_sandbox"@[27] == 'x');
    assert("06_clone_n"@.len() == 10 && "06_clone_n"@[0] == '0' && "06_clone_n"@[1] == '6' && "06_clone_n"@[9] == 'n');
    assert("07_clone_concurrent"@.len() == 19 && "07_clone_concurrent"@[0] == '0' && "07_clone_concurrent"@[1] == '7' && "07_clone_concurrent"@[18] == 't');
    assert("08_fork_three_axis"@.len() == 18 && "08_fork_three_axis"@[0] == '0' && "08_fork_three_axis"@[1] == '8' && "08_fork_three_axis"@[17] == 's');
    assert("09_rollback"@.len() == 11 && "09_rollback"@[0] == '0' && "09_rollback"@[1] == '9' && "09_rollback"@[10] == 'k');
    assert("10_rollback_then_continue"@.len() == 25 && "10_rollback_then_continue"@[0] == '1' && "10_rollback_then_continue"@[1] == '0' && "10_rollback_then_continue"@[24] == 'e');
    assert("11_delete_snapshot"@.len() == 18 && "11_delete_snapshot"@[0] == '1' && "11_delete_snapshot"@[1] == '1' && "11_delete_snapshot"@[17] == 't');
    assert("clone_demo"@.len() == 10 && "clone_demo"@[0] == 'c' && "clone_demo"@[1] == 'l' && "clone_demo"@[9] == 'o');
    assert("rollback_demo"@.len() == 13 && "rollback_demo"@[0] == 'r' && "rollback_demo"@[1] == 'o' && "rollback_demo"@[12] == 'o');
}

/// In the registry an identifier means one thing.
pub proof fn lemma_registry_is_sound()
    ensures
        is_sound(registry::registry()),
{
    let all = registry::registry();
    assert forall|i: int, j: int| 0 <= i < j < all.len() implies (#[trigger] all[i]).id@ != (
    #[trigger] all[j]).id@ by {
        lemma_scenarios_differ(i, j);
    }
    assert forall|i: int| 0 <= i < all.len() implies !(#[trigger] all[i]).id@.contains(':') by {
        lemma_scenarios_have_no_colon(i);
    }
    lemma_code_sandbox_quickstart_files_differ();
    lemma_network_policy_files_differ();
    lemma_snapshot_rollback_clone_files_differ();
    assert forall|i: int| 0 <= i < all.len() implies files_differ(
        (#[trigger] all[i]).files,
    ) by {}
}

// ----------------------------------------------------- laws of the language table

/// Whether there is such a file of a scenario that is offered.
pub open spec fn is_offered(i: int, j: int) -> bool {
    &&& 0 <= i < registry::registry().len()
    &&& !registry::registry()[i].hidden
    &&& 0 <= j < registry::registry()[i].files.len()
}

/// The identifier of a file of a scenario.
pub open spec fn offered_id(i: int, j: int) -> Seq<char> {
    full_id(registry::registry()[i].id@, registry::registry()[i].files[j].id@)
}

/// The language of a file of a scenario.
pub open spec fn offered_language(i: int, j: int) -> Seq<char> {
    registry::registry()[i].files[j].language@
}

/// Whether a file is called by its identifier, with the extension of its language,
/// which is Go or Python.
pub open spec fn is_named_by_language(file: FileSpec) -> bool {
    ||| file.language@ == "go"@ && file.filename@ == file.id@ + ".go"@
    ||| file.language@ == "python"@ && file.filename@ == file.id@ + ".py"@
}

/// The place of an offered file in the language table, which is in the order of the
/// registry.
pub open spec fn table_place(i: int, j: int) -> int {
    if i == 0 {
        j
    } else if i == 1 {
        5 + j
    } else if i == 2 {
        8 + j
    } else if i == 3 {
        9 + j
    } else if i == 4 {
        10 + j
    } else if i == 5 {
        23 + j
    } else if i == 6 {
        24 + j
    } else {
        25 + j
    }
}

spec fn is_in_table(i: int, j: int) -> bool {
    &&& is_entry_of(table_place(i, j), i, j)
    &&& is_named_by_language(registry::registry()[i].files[j])
}

proof fn lemma_code_sandbox_quickstart_in_table(j: int)
    requires
        0 <= j < registry::code_sandbox_quickstart_files().len(),
    ensures
        is_in_table(0, j),
{
    reveal_strlit("code-sandbox-quickstart");
    reveal_strlit(":");
    reveal_strlit(".py");
    if j == 0 {
        reveal_strlit("create");
        reveal_strlit("create.py");
        reveal_strlit("code-sandbox-quickstart:create");
        assert(full_id("code-sandbox-quickstart"@, "create"@) =~= "code-sandbox-quickstart:create"@);
        assert("create"@ + ".py"@ =~= "create.py"@);
    } else if j == 1 {
        reveal_strlit("exec_code");
        reveal_strlit("exec_code.py");
        reveal_strlit("code-sandbox-quickstart:exec_code");
        assert(full_id("code-sandbox-quickstart"@, "exec_code"@) =~= "code-sandbox-quickstart:exec_code"@);
        assert("exec_code"@ + ".py"@ =~= "exec_code.py"@);
    } else if j == 2 {
        reveal_strlit("cmd");
        reveal_strlit("cmd.py");
        reveal_strlit("code-sandbox-quickstart:cmd");
        assert(full_id("code-sandbox-quickstart"@, "cmd"@) =~= "code-sandbox-quickstart:cmd"@);
        assert("cmd"@ + ".py"@ =~= "cmd.py"@);
    } else if j == 3 {
        reveal_strlit("read");
        reveal_strlit("read.py");
        reveal_strlit("code-sandbox-quickstart:read");
        assert(full_id("code-sandbox-quickstart"@, "read"@) =~= "code-sandbox-quickstart:read"@);
        assert("read"@ + ".py"@ =~= "read.py"@);
    } else {
        reveal_strlit("pause");
        reveal_strlit("pause.py");
        reveal_strlit("code-sandbox-quickstart:pause");
        assert(full_id("code-sandbox-quickstart"@, "pause"@) =~= "code-sandbox-quickstart:pause"@);
        assert("pause"@ + ".py"@ =~= "pause.py"@);
    }
}

proof fn lemma_network_policy_in_table(j: int)
    requires
        0 <= j < registry::network_policy_files().len(),
    ensures
        is_in_table(1, j),
{
    reveal_strlit("network-policy");
    reveal_strlit(":");
    reveal_strlit(".py");
    if j == 0 {
        reveal_strlit("network_no_internet");
        reveal_strlit("network_no_internet.py");
        reveal_strlit("network-policy:network_no_internet");
        assert(full_id("network-policy"@, "network_no_internet"@) =~= "network-policy:network_no_internet"@);
        assert("network_no_internet"@ + ".py"@ =~= "network_no_internet.py"@);
    } else if j == 1 {
        reveal_strlit("network_allowlist");
        reveal_strlit("network_allowlist.py");
        reveal_strlit("network-policy:network_allowlist");
        assert(full_id("network-policy"@, "network_allowlist"@) =~= "network-policy:network_allowlist"@);
        assert("network_allowlist"@ + ".py"@ =~= "network_allowlist.py"@);
    } else {
        reveal_strlit("network_denylist");
        reveal_strlit("network_denylist.py");
        reveal_strlit("network-policy:network_denylist");
        assert(full_id("network-policy"@, "network_denylist"@) =~= "network-policy:network_denylist"@);
        assert("network_denylist"@ + ".py"@ =~= "network_denylist.py"@);
    }
}

proof fn lemma_host_mount_in_table(j: int)
    requires
        0 <= j < registry::host_mount_files().len(),
    ensures
        is_in_table(2, j),
{
    reveal_strlit("host-mount");
    reveal_strlit(":");
    reveal_strlit(".py");
    reveal_strlit("create_with_mount");
    reveal_strlit("create_with_mount.py");
    reveal_strlit("host-mount:create_with_mount");
    assert(full_id("host-mount"@, "create_with_mount"@) =~= "host-mount:create_with_mount"@);
    assert("create_with_mount"@ + ".py"@ =~= "create_with_mount.py"@);
}

proof fn lemma_browser_sandbox_in_table(j: int)
    requires
        0 <= j < registry::browser_sandbox_files().len(),
    ensures
        is_in_table(3, j),
{
    reveal_strlit("browser-sandbox");
    reveal_strlit(":");
    reveal_strlit(".py");
    reveal_strlit("browser");
    reveal_strlit("browser.py");
    reveal_strlit("browser-sandbox:browser");
    assert(full_id("browser-sandbox"@, "browser"@) =~= "browser-sandbox:browser"@);
    assert("browser"@ + ".py"@ =~= "browser.py"@);
}

proof fn lemma_snapshot_rollback_clone_in_table_first(j: int)
    requires
        0 <= j < 5,
    ensures
        is_in_table(4, j),
{
    reveal_strlit("snapshot-rollback-clone");
    reveal_strlit(":");
    reveal_strlit(".py");
    if j == 0 {
        reveal_strlit("01_create_snapshot");
        reveal_strlit("01_create_snapshot.py");
        reveal_strlit("snapshot-rollback-clone:01_create_snapshot");
        assert(full_id("snapshot-rollback-clone"@, "01_create_snapshot"@) =~= "snapshot-rollback-clone:01_create_snapshot"@);
        assert("01_create_snapshot"@ + ".py"@ =~= "01_create_snapshot.py"@);
    } else if j == 1 {
        reveal_strlit("02_list_snapshots");
        reveal_strlit("02_list_snapshots.py");
        reveal_strlit("snapshot-rollback-clone:02_list_snapshots");
        assert(full_id("snapshot-rollback-clone"@, "02_list_snapshots"@) =~= "snapshot-rollback-clone:02_list_snapshots"@);
        assert("02_list_snapshots"@ + ".py"@ =~= "02_list_snapshots.py"@);
    } else if j == 2 {
        reveal_strlit("03_clone_from_snapshot");
        reveal_strlit("03_clone_from_snapshot.py");
        reveal_strlit("snapshot-rollback-clone:03_clone_from_snapshot");
        assert(full_id("snapshot-rollback-clone"@, "03_clone_from_snapshot"@) =~= "snapshot-rollback-clone:03_clone_from_snapshot"@);
        assert("03_clone_from_snapshot"@ + ".py"@ =~= "03_clone_from_snapshot.py"@);
    } else if j == 3 {
        reveal_strlit("04_state_preserved");
        reveal_strlit("04_state_preserved.py");
        reveal_strlit("snapshot-rollback-clone:04_state_preserved");
        assert(full_id("snapshot-rollback-clone"@, "04_state_preserved"@) =~= "snapshot-rollback-clone:04_state_preserved"@);
        assert("04_state_preserved"@ + ".py"@ =~= "04_state_preserved.py"@);
    } else {
        reveal_strlit("05_snapshot_outlives_sandbox");
        reveal_strlit("05_snapshot_outlives_sandbox.py");
        reveal_strlit("snapshot-rollback-clone:05_snapshot_outlives_sandbox");
        assert(full_id("snapshot-rollback-clone"@, "05_snapshot_outlives_sandbox"@) =~= "snapshot-rollback-clone:05_snapshot_outlives_sandbox"@);
        assert("05_snapshot_outlives_sandbox"@ + ".py"@ =~= "05_snapshot_outlives_sandbox.py"@);
    }
}

proof fn lemma_snapshot_rollback_clone_in_table_second(j: int)
    requires
        5 <= j < 10,
    ensures
        is_in_table(4, j),
{
    reveal_strlit("snapshot-rollback-clone");
    reveal_strlit(":");
    reveal_strlit(".py");
    if j == 5 {
        reveal_strlit("06_clone_n");
        reveal_strlit("06_clone_n.py");
        reveal_strlit("snapshot-rollback-clone:06_clone_n");
        assert(full_id("snapshot-rollback-clone"@, "06_clone_n"@) =~= "snapshot-rollback-clone:06_clone_n"@);
        assert("06_clone_n"@ + ".py"@ =~= "06_clone_n.py"@);
    } else if j == 6 {
        reveal_strlit("07_clone_concurrent");
        reveal_strlit("07_clone_concurrent.py");
        reveal_strlit("snapshot-rollback-clone:07_clone_concurrent");
        assert(full_id("snapshot-rollback-clone"@, "07_clone_concurrent"@) =~= "snapshot-rollback-clone:07_clone_concurrent"@);
        assert("07_clone_concurrent"@ + ".py"@ =~= "07_clone_concurrent.py"@);
    } else if j == 7 {
        reveal_strlit("08_fork_three_axis");
        reveal_strlit("08_fork_three_axis.py");
        reveal_strlit("snapshot-rollback-clone:08_fork_three_axis");
        assert(full_id("snapshot-rollback-clone"@, "08_fork_three_axis"@) =~= "snapshot-rollback-clone:08_fork_three_axis"@);
        assert("08_fork_three_axis"@ + ".py"@ =~= "08_fork_three_axis.py"@);
    } else if j == 8 {
        reveal_strlit("09_rollback");
        reveal_strlit("09_rollback.py");
        reveal_strlit("snapshot-rollback-clone:09_rollback");
        assert(full_id("snapshot-rollback-clone"@, "09_rollback"@) =~= "snapshot-rollback-clone:09_rollback"@);
        assert("09_rollback"@ + ".py"@ =~= "09_rollback.py"@);
    } else {
        reveal_strlit("10_rollback_then_continue");
        reveal_strlit("10_rollback_then_continue.py");
        reveal_strlit("snapshot-rollback-clone:10_rollback_then_continue");
        assert(full_id("snapshot-rollback-clone"@, "10_rollback_then_continue"@) =~= "snapshot-rollback-clone:10_rollback_then_continue"@);
        assert("10_rollback_then_continue"@ + ".py"@ =~= "10_rollback_then_continue.py"@);
    }
}

proof fn lemma_snapshot_rollback_clone_in_table_third(j: int)
    requires
        10 <= j < 13,
    ensures
        is_in_table(4, j),
{
    reveal_strlit("snapshot-rollback-clone");
    reveal_strlit(":");
    reveal_strlit(".py");
    if j == 10 {
        reveal_strlit("11_delete_snapshot");
        reveal_strlit("11_delete_snapshot.py");
        reveal_strlit("snapshot-rollback-clone:11_delete_snapshot");
        assert(full_id("snapshot-rollback-clone"@, "11_delete_snapshot"@) =~= "snapshot-rollback-clone:11_delete_snapshot"@);
        assert("11_delete_snapshot"@ + ".py"@ =~= "11_delete_snapshot.py"@);
    } else if j == 11 {
        reveal_strlit("clone_demo");
        reveal_strlit("clone_demo.py");
        reveal_strlit("snapshot-rollback-clone:clone_demo");
        assert(full_id("snapshot-rollback-clone"@, "clone_demo"@) =~= "snapshot-rollback-clone:clone_demo"@);
        assert("clone_demo"@ + ".py"@ =~= "clone_demo.py"@);
    } else {
        reveal_strlit("rollback_demo");
        reveal_strlit("rollback_demo.py");
        reveal_strlit("snapshot-rollback-clone:rollback_demo");
        assert(full_id("snapshot-rollback-clone"@, "rollback_demo"@) =~= "snapshot-rollback-clone:rollback_demo"@);
        assert("rollback_demo"@ + ".py"@ =~= "rollback_demo.py"@);
    }
}

proof fn lemma_snapshot_rollback_clone_in_table(j: int)
    requires
        0 <= j < registry::snapshot_rollback_clone_files().len(),
    ensures
        is_in_table(4, j),
{
    if j < 5 {
        lemma_snapshot_rollback_clone_in_table_first(j);
    } else if j < 10 {
        lemma_snapshot_rollback_clone_in_table_second(j);
    } else {
        lemma_snapshot_rollback_clone_in_table_third(j);
    }
}

proof fn lemma_e2b_dev_sidecar_in_table(j: int)
    requires
        0 <= j < registry::e2b_dev_sidecar_files().len(),
    ensures
        is_in_table(5, j),
{
    reveal_strlit("e2b-dev-sidecar");
    reveal_strlit(":");
    reveal_strlit(".py");
    reveal_strlit("demo");
    reveal_strlit("demo.py");
    reveal_strlit("e2b-dev-sidecar:demo");
    assert(full_id("e2b-dev-sidecar"@, "demo"@) =~= "e2b-dev-sidecar:demo"@);
    assert("demo"@ + ".py"@ =~= "demo.py"@);
}

proof fn lemma_cubesandbox_base_nginx_in_table(j: int)
    requires
        0 <= j < registry::cubesandbox_base_nginx_files().len(),
    ensures
        is_in_table(6, j),
{
    reveal_strlit("cubesandbox-base-nginx");
    reveal_strlit(":");
    reveal_strlit(".py");
    reveal_strlit("test_files");
    reveal_strlit("test_files.py");
    reveal_strlit("cubesandbox-base-nginx:test_files");
    assert(full_id("cubesandbox-base-nginx"@, "test_files"@) =~= "cubesandbox-base-nginx:test_files"@);
    assert("test_files"@ + ".py"@ =~= "test_files.py"@);
}

proof fn lemma_cube_bench_in_table(j: int)
    requires
        0 <= j < registry::cube_bench_files().len(),
    ensures
        is_in_table(7, j),
{
    reveal_strlit("cube-bench");
    reveal_strlit(":");
    reveal_strlit(".go");
    reveal_strlit("main");
    reveal_strlit("main.go");
    reveal_strlit("cube-bench:main");
    assert(full_id("cube-bench"@, "main"@) =~= "cube-bench:main"@);
    assert("main"@ + ".go"@ =~= "main.go"@);
}

proof fn lemma_offered_in_table(i: int, j: int)
    requires
        is_offered(i, j),
    ensures
        is_in_table(i, j),
{
    if i == 0 {
        lemma_code_sandbox_quickstart_in_table(j);
    } else if i == 1 {
        lemma_network_policy_in_table(j);
    } else if i == 2 {
        lemma_host_mount_in_table(j);
    } else if i == 3 {
        lemma_browser_sandbox_in_table(j);
    } else if i == 4 {
        lemma_snapshot_rollback_clone_in_table(j);
    } else if i == 5 {
        lemma_e2b_dev_sidecar_in_table(j);
    } else if i == 6 {
        lemma_cubesandbox_base_nginx_in_table(j);
    } else {
        lemma_cube_bench_in_table(j);
    }
}

/// The scenario and the file of a place in the language table.
spec fn place_in_registry(k: int) -> (int, int) {
    if k < 5 {
        (0, k)
    } else if k < 8 {
        (1, k - 5)
    } else if k < 9 {
        (2, k - 8)
    } else if k < 10 {
        (3, k - 9)
    } else if k < 23 {
        (4, k - 10)
    } else if k < 24 {
        (5, k - 23)
    } else if k < 25 {
        (6, k - 24)
    } else {
        (7, k - 25)
    }
}

/// Whether an entry of the language table is that of a file: its key is the identifier
/// of the example, its value the language of the file.
pub open spec fn is_entry_of(k: int, i: int, j: int) -> bool {
    &&& 0 <= k < registry::languages().len()
    &&& registry::languages()[k].0@ == offered_id(i, j)
    &&& registry::languages()[k].1@ == offered_language(i, j)
}

/// Whether an entry of the language table is that of an example that is offered.
pub open spec fn is_of_an_offered(k: int) -> bool {
    exists|i: int, j: int| is_offered(i, j) && #[trigger] is_entry_of(k, i, j)
}

proof fn lemma_entry_is_offered(k: int)
    requires
        0 <= k < registry::languages().len(),
    ensures
        is_offered(place_in_registry(k).0, place_in_registry(k).1),
        table_place(place_in_registry(k).0, place_in_registry(k).1) == k,
{
}

/// Every example that is offered has an entry in the language table.
pub proof fn lemma_offered_example_has_an_entry(i: int, j: int)
    requires
        is_offered(i, j),
    ensures
        is_entry_of(table_place(i, j), i, j),
{
    lemma_offered_in_table(i, j);
}

/// Every entry of the language table is that of an example that is offered.
pub proof fn lemma_entry_is_of_an_offered_example(k: int)
    requires
        0 <= k < registry::languages().len(),
    ensures
        is_of_an_offered(k),
{
    let i = place_in_registry(k).0;
    let j = place_in_registry(k).1;
    lemma_entry_is_offered(k);
    lemma_offered_example_has_an_entry(i, j);
    assert(is_entry_of(k, i, j));
}

/// Whether an identifier is a key of the language table.
pub open spec fn is_key(id: Seq<char>) -> bool {
    exists|k: int| 0 <= k < registry::languages().len() && (#[trigger] registry::languages()[k]).0@
        == id
}

/// The keys of the language table are the identifiers that mean an example.
pub proof fn lemma_keys_mean_examples(id: Seq<char>)
    ensures
        is_key(id) <==> exists|i: int, j: int| #[trigger] is_offered(i, j) && offered_id(i, j) == id,
        is_key(id) <==> resolved(registry::registry(), id) is Some,
{
    let all = registry::registry();
    lemma_registry_is_sound();
    if is_key(id) {
        let k = choose|k: int|
            0 <= k < registry::languages().len() && (#[trigger] registry::languages()[k]).0@ == id;
        lemma_entry_is_of_an_offered_example(k);
        let (i, j) = choose|i: int, j: int| is_offered(i, j) && #[trigger] is_entry_of(k, i, j);
        assert(is_offered(i, j) && offered_id(i, j) == id);
        lemma_visible_file_resolves(all, i, j);
    }
    if exists|i: int, j: int| #[trigger] is_offered(i, j) && offered_id(i, j) == id {
        let (i, j) = choose|i: int, j: int| #[trigger] is_offered(i, j) && offered_id(i, j) == id;
        lemma_offered_example_has_an_entry(i, j);
        assert(registry::languages()[table_place(i, j)].0@ == id);
    }
    if resolved(all, id) is Some {
        lemma_resolved_is_offered(id);
    }
}

proof fn lemma_resolved_is_offered(id: Seq<char>)
    requires
        resolved(registry::registry(), id) is Some,
    ensures
        exists|i: int, j: int| #[trigger] is_offered(i, j) && offered_id(i, j) == id,
{
    let all = registry::registry();
    let (scenario, file) = text::split_first(id, ':')->0;
    lemma_scenario_place(all, scenario, file);
    let i = scenario_place(all, scenario, file);
    lemma_file_place(all[i].files, file);
    let j = file_place(all[i].files, file);
    assert(is_offered(i, j));
    reveal_strlit(":");
    id.index_of_first_ensures(':');
    let n = id.index_of_first(':')->0;
    assert(id =~= id.take(n) + seq![':'] + id.skip(n + 1));
    assert(":"@ =~= seq![':']);
    assert(offered_id(i, j) == id);
}

/// The language of an offered example in the table is Go exactly where the file is
/// called by its identifier with `.go`; any other is Python, and its file is called
/// by its identifier with `.py`.
pub proof fn lemma_language_follows_the_name(i: int, j: int)
    requires
        is_offered(i, j),
    ensures
        ({
            let file = registry::registry()[i].files[j];
            let language = registry::languages()[table_place(i, j)].1@;
            &&& language == "go"@ <==> file.filename@ == file.id@ + ".go"@
            &&& language != "go"@ ==> language == "python"@ && file.filename@ == file.id@ + ".py"@
        }),
{
    lemma_offered_in_table(i, j);
    let file = registry::registry()[i].files[j];
    reveal_strlit("go");
    reveal_strlit("python");
    reveal_strlit(".go");
    reveal_strlit(".py");
    assert("go"@.len() == 2 && "python"@.len() == 6);
    let n = file.id@.len() as int;
    assert((file.id@ + ".go"@)[n + 1] == 'g');
    assert((file.id@ + ".py"@)[n + 1] == 'p');
}

/// The language table as a whole: its keys are the identifiers of the examples that
/// are offered and no others, and its values are the languages of their files.
pub proof fn lemma_table_lists_the_offered_examples()
    ensures
        registry::languages().len() == 26,
        forall|i: int, j: int| #[trigger]
            is_offered(i, j) ==> is_entry_of(table_place(i, j), i, j),
        forall|k: int| 0 <= k < registry::languages().len() ==> #[trigger] is_of_an_offered(k),
{
    assert forall|i: int, j: int| #[trigger] is_offered(i, j) implies is_entry_of(
        table_place(i, j),
        i,
        j,
    ) by {
        lemma_offered_example_has_an_entry(i, j);
    }
    assert forall|k: int| 0 <= k < registry::languages().len() implies #[trigger] is_of_an_offered(
        k,
    ) by {
        lemma_entry_is_of_an_offered_example(k);
    }
}

proof fn lemma_language_in(langs: Seq<(&'static str, &'static str)>, k: int)
    requires
        0 <= k < langs.len(),
        forall|a: int, b: int|
            0 <= a < b < langs.len() ==> (#[trigger] langs[a]).0@ != (#[trigger] langs[b]).0@,
    ensures
        language_in(langs, langs[k].0@) == Some(langs[k].1),
    decreases k,
{
    if k > 0 {
        let rest = langs.drop_first();
        assert(langs[0].0@ != langs[k].0@);
        assert(rest[k - 1] == langs[k]);
        assert forall|a: int, b: int| 0 <= a < b < rest.len() implies (#[trigger] rest[a]).0@ != (
        #[trigger] rest[b]).0@ by {
            assert(rest[a] == langs[a + 1] && rest[b] == langs[b + 1]);
        }
        lemma_language_in(rest, k - 1);
    }
}

/// The language table agrees with the files: an example is listed with the language
/// of its file.
pub proof fn lemma_listed_language_is_the_files(i: int, j: int)
    requires
        is_offered(i, j),
    ensures
        meta_of(
            registry::registry()[i],
            registry::registry()[i].files[j],
            registry::languages(),
        ).language == offered_language(i, j),
{
    lemma_offered_in_table(i, j);
    registry::lemma_no_language_twice();
    lemma_language_in(registry::languages(), table_place(i, j));
}

// ---------------------------------------------------------------- laws of the list

/// How many files the scenarios before that place have that are not hidden.
pub open spec fn listed_before(scenarios: Seq<ScenarioModel>, i: int) -> int
    decreases i,
{
    if i <= 0 {
        0
    } else {
        listed_before(scenarios, i - 1) + if scenarios[i - 1].hidden {
            0
        } else {
            scenarios[i - 1].files.len() as int
        }
    }
}

proof fn lemma_listed_before_is_local(a: Seq<ScenarioModel>, b: Seq<ScenarioModel>, i: int)
    requires
        i <= a.len() <= b.len(),
        a == b.take(a.len() as int),
    ensures
        listed_before(a, i) == listed_before(b, i),
    decreases i,
{
    if i > 0 {
        lemma_listed_before_is_local(a, b, i - 1);
        assert(a[i - 1] == b[i - 1]);
    }
}

/// The list has every file of the scenarios that are not hidden, in the order of the
/// registry, each once, and nothing else.
pub proof fn lemma_list_is_in_order(
    scenarios: Seq<ScenarioModel>,
    langs: Seq<(&'static str, &'static str)>,
    i: int,
    j: int,
)
    ensures
        visible_metas(scenarios, langs).len() == listed_before(scenarios, scenarios.len() as int),
        0 <= i < scenarios.len() && !scenarios[i].hidden && 0 <= j < scenarios[i].files.len() ==> {
            &&& 0 <= listed_before(scenarios, i) + j < visible_metas(scenarios, langs).len()
            &&& visible_metas(scenarios, langs)[listed_before(scenarios, i) + j] == meta_of(
                scenarios[i],
                scenarios[i].files[j],
                langs,
            )
        },
    decreases scenarios.len(),
{
    if scenarios.len() > 0 {
        let front = scenarios.drop_last();
        let n = front.len() as int;
        lemma_list_is_in_order(front, langs, i, j);
        assert(front =~= scenarios.take(n));
        lemma_listed_before_is_local(front, scenarios, n);
        if i <= n {
            lemma_listed_before_is_local(front, scenarios, i);
        }
        if 0 <= i < n {
            assert(front[i] == scenarios[i]);
        }
        if i == n && !scenarios[i].hidden && 0 <= j < scenarios[i].files.len() {
            let own = scenario_metas(scenarios.last(), langs);
            assert(own[j] == meta_of(scenarios[i], scenarios[i].files[j], langs));
            lemma_listed_before_is_not_negative(scenarios, i);
        }
    }
}

proof fn lemma_listed_before_is_not_negative(scenarios: Seq<ScenarioModel>, i: int)
    ensures
        listed_before(scenarios, i) >= 0,
    decreases i,
{
    if i > 0 {
        lemma_listed_before_is_not_negative(scenarios, i - 1);
    }
}

/// What is listed of an example is what its file and its scenario say; its language is
/// that of the table, where the table has one.
pub proof fn lemma_listed_example_says_what_it_is(
    scenario: ScenarioModel,
    file: FileSpec,
    langs: Seq<(&'static str, &'static str)>,
)
    ensures
        ({
            let meta = meta_of(scenario, file, langs);
            let id = scenario.id@ + ":"@ + file.id@;
            &&& meta.id == id
            &&& meta.scenario == scenario.id@
            &&& meta.filename == file.filename@
            &&& meta.title == file.title@
            &&& meta.description == file.description@
            &&& meta.category == scenario.category@
            &&& meta.store_item_id == (match scenario.store_item_id {
                Some(item) => Some(item@),
                None => None,
            })
            &&& (forall|k: int| 0 <= k < langs.len() ==> (#[trigger] langs[k]).0@ != id)
                ==> meta.language == file.language@
            &&& forall|k: int|
                0 <= k < langs.len() && (#[trigger] langs[k]).0@ == id && (forall|l: int|
                    0 <= l < k ==> (#[trigger] langs[l]).0@ != id) ==> meta.language == langs[k].1@
        }),
{
    let id = full_id(scenario.id@, file.id@);
    lemma_language_is_the_first(langs, id);
}

proof fn lemma_language_is_the_first(langs: Seq<(&'static str, &'static str)>, id: Seq<char>)
    ensures
        match language_in(langs, id) {
            Some(language) => exists|k: int|
                0 <= k < langs.len() && (#[trigger] langs[k]).0@ == id && langs[k].1 == language
                    && forall|l: int| 0 <= l < k ==> (#[trigger] langs[l]).0@ != id,
            None => forall|k: int| 0 <= k < langs.len() ==> (#[trigger] langs[k]).0@ != id,
        },
    decreases langs.len(),
{
    if langs.len() > 0 {
        if langs[0].0@ == id {
            assert(langs[0].1 == language_in(langs, id)->0);
        } else {
            let rest = langs.drop_first();
            lemma_language_is_the_first(rest, id);
            match language_in(langs, id) {
                Some(language) => {
                    let k = choose|k: int|
                        0 <= k < rest.len() && (#[trigger] rest[k]).0@ == id && rest[k].1
                            == language && forall|l: int|
                            0 <= l < k ==> (#[trigger] rest[l]).0@ != id;
                    assert(langs[k + 1] == rest[k]);
                    assert forall|l: int| 0 <= l < k + 1 implies (#[trigger] langs[l]).0@ != id by {
                        if l > 0 {
                            assert(langs[l] == rest[l - 1]);
                        }
                    }
                },
                None => {
                    assert forall|k: int| 0 <= k < langs.len() implies (#[trigger] langs[k]).0@
                        != id by {
                        if k > 0 {
                            assert(langs[k] == rest[k - 1]);
                        }
                    }
                },
            }
        }
    }
}

/// No example of a hidden scenario is meant by any identifier.
pub proof fn lemma_hidden_scenarios_are_not_meant(
    scenarios: Seq<ScenarioModel>,
    i: int,
    file: Seq<char>,
)
    requires
        is_sound(scenarios),
        0 <= i < scenarios.len(),
        scenarios[i].hidden,
    ensures
        resolved(scenarios, scenarios[i].id@ + ":"@ + file) is None,
{
    let id = full_id(scenarios[i].id@, file);
    lemma_full_id_splits(scenarios[i].id@, file);
    lemma_scenario_place(scenarios, scenarios[i].id@, file);
    let at = scenario_place(scenarios, scenarios[i].id@, file);
    if at < scenarios.len() {
        if at < i {
            assert(scenarios[at].id@ != scenarios[i].id@);
        } else if at > i {
            assert(scenarios[i].id@ != scenarios[at].id@);
        }
    }
}

/// The list that is given out has every offered example in its place.
pub proof fn lemma_list_is_given_out(listed: Vec<ExampleMeta>, i: int, j: int)
    requires
        call_ensures(list_visible, (), listed),
    ensures
        listed@.len() == listed_before(registry::registry(), registry::registry().len() as int),
        is_offered(i, j) ==> {
            let place = listed_before(registry::registry(), i) + j;
            &&& 0 <= place < listed@.len()
            &&& listed@[place].id@ == offered_id(i, j)
            &&& listed@[place].title@ == registry::registry()[i].files[j].title@
            &&& listed@[place].language@ == offered_language(i, j)
        },
{
    lemma_list_is_in_order(registry::registry(), registry::languages(), i, j);
    assert(metas_model(listed@).len() == listed@.len());
    if is_offered(i, j) {
        let place = listed_before(registry::registry(), i) + j;
        lemma_listed_language_is_the_files(i, j);
        assert(metas_model(listed@)[place] == listed@[place].model());
    }
}

} // verus!
