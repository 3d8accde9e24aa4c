//! How an example is run: the interpreter, its arguments, the directory, and where
//! edited code goes.

use vstd::prelude::*;
use vstd::string::StringExecFns;

use crate::paths;
use crate::registry;
use crate::registry::FileSpec;
use crate::text;

verus! {

// ----------------------------------------------------------------------- types

/// A step that prepares a run.
pub enum Step {
    /// See to the Python requirements in this directory.
    Install(String),
    CreateDir(String),
    WriteFile { path: String, code: String },
    /// Copy a file, where it is there.
    CopyIfPresent { from: String, to: String },
}

/// What is there for the time of a run only.
pub enum Temp {
    Dir(String),
    File(String),
}

/// Where edited code goes.
pub struct EditPlan {
    /// The file with the code.
    pub file: String,
    pub steps: Vec<Step>,
    pub temp: Temp,
}

/// How an example is run.
pub struct RunPlan {
    /// What is done before, in order.
    pub steps: Vec<Step>,
    pub program: &'static str,
    pub args: Vec<String>,
    pub work_dir: String,
    /// The time that the process may take.
    pub timeout_secs: u64,
    /// What is removed afterwards.
    pub temp: Option<Temp>,
}

/// What a [`Step`] holds.
pub enum StepModel {
    Install(Seq<char>),
    CreateDir(Seq<char>),
    WriteFile { path: Seq<char>, code: Seq<char> },
    CopyIfPresent { from: Seq<char>, to: Seq<char> },
}

/// What a [`Temp`] holds.
pub enum TempModel {
    Dir(Seq<char>),
    File(Seq<char>),
}

/// What an [`EditPlan`] holds.
pub struct EditModel {
    pub file: Seq<char>,
    pub steps: Seq<StepModel>,
    pub temp: TempModel,
}

/// What a [`RunPlan`] holds.
pub struct PlanModel {
    pub steps: Seq<StepModel>,
    pub program: Seq<char>,
    pub args: Seq<Seq<char>>,
    pub work_dir: Seq<char>,
    pub timeout_secs: u64,
    pub temp: Option<TempModel>,
}

impl Step {
    pub open spec fn model(self) -> StepModel {
        match self {
            Step::Install(dir) => StepModel::Install(dir@),
            Step::CreateDir(dir) => StepModel::CreateDir(dir@),
            Step::WriteFile { path, code } => StepModel::WriteFile { path: path@, code: code@ },
            Step::CopyIfPresent { from, to } => StepModel::CopyIfPresent {
                from: from@,
                to: to@,
            },
        }
    }
}

/// What a row of steps holds.
pub open spec fn steps_model(steps: Seq<Step>) -> Seq<StepModel> {
    steps.map_values(|step: Step| step.model())
}

impl Temp {
    pub open spec fn model(self) -> TempModel {
        match self {
            Temp::Dir(dir) => TempModel::Dir(dir@),
            Temp::File(file) => TempModel::File(file@),
        }
    }
}

impl EditPlan {
    pub open spec fn model(self) -> EditModel {
        EditModel {
            file: self.file@,
            steps: steps_model(self.steps@),
            temp: self.temp.model(),
        }
    }
}

impl RunPlan {
    pub open spec fn model(self) -> PlanModel {
        PlanModel {
            steps: steps_model(self.steps@),
            program: self.program@,
            args: text::texts(self.args@),
            work_dir: self.work_dir@,
            timeout_secs: self.timeout_secs,
            temp: match self.temp {
                Some(temp) => Some(temp.model()),
                None => None,
            },
        }
    }
}

// ---------------------------------------------------------------- interpreters

/// The program that runs files with that extension.
pub open spec fn interpreter(extension: Seq<char>) -> Option<Seq<char>> {
    if extension == "py"@ {
        Some("python3"@)
    } else if extension == "go"@ {
        Some("go"@)
    } else if extension == "sh"@ || extension == "bash"@ {
        Some("bash"@)
    } else if extension == "js"@ || extension == "mjs"@ {
        Some("node"@)
    } else {
        None
    }
}

/// The program that runs files with that extension.
pub fn interpreter_for(extension: &str) -> (r: Option<&'static str>)
    ensures
        match r {
            Some(program) => interpreter(extension@) == Some(program@),
            None => interpreter(extension@) is None,
        },
{
    if text::same(extension, "py") {
        Some("python3")
    } else if text::same(extension, "go") {
        Some("go")
    } else if text::same(extension, "sh") || text::same(extension, "bash") {
        Some("bash")
    } else if text::same(extension, "js") || text::same(extension, "mjs") {
        Some("node")
    } else {
        None
    }
}

// --------------------------------------------------------------------- run ids

/// Whether a text is a random identifier: 32 hexadecimal digits in lower case, in
/// groups of 8, 4, 4, 4 and 12 with hyphens between, with the digits that mark it as
/// random.
pub open spec fn is_run_id(id: Seq<char>) -> bool {
    &&& id.len() == 36
    &&& forall|i: int|
        0 <= i < 36 ==> if i == 8 || i == 13 || i == 18 || i == 23 {
            #[trigger] id[i] == '-'
        } else {
            '0' <= id[i] <= '9' || 'a' <= id[i] <= 'f'
        }
    &&& id[14] == '4'
    &&& id[19] == '8' || id[19] == '9' || id[19] == 'a' || id[19] == 'b'
}

/// `uuid::Uuid::new_v4`, shown by its `to_string`: a random identifier in the
/// hyphenated form, in lower case. Which one it is stays open. It panics where the
/// system has no random bytes to give.
#[verifier::external_body]
pub(crate) fn fresh_run_id() -> (r: String)
    ensures
        is_run_id(r@),
{
    uuid::Uuid::new_v4().to_string()
}

// ------------------------------------------------------------------------ plans

/// The name of the temporary file or directory of a run, before its extension.
pub open spec fn temp_name(run_id: Seq<char>) -> Seq<char> {
    ".tmp_run_"@ + run_id
}

/// Where edited code goes. Code that is built as a package gets a directory of its
/// own, with the files that make it a module; other code gets a file next to the
/// one that it stands for.
pub open spec fn edit_of(
    base: Seq<char>,
    filename: Seq<char>,
    extension: Seq<char>,
    code: Seq<char>,
    run_id: Seq<char>,
) -> EditModel {
    if extension == "go"@ {
        let dir = paths::joined(base, temp_name(run_id));
        let file = paths::joined(dir, filename);
        EditModel {
            file,
            steps: seq![
                StepModel::CreateDir(dir),
                StepModel::WriteFile { path: file, code },
                StepModel::CopyIfPresent {
                    from: paths::joined(base, "go.mod"@),
                    to: paths::joined(dir, "go.mod"@),
                },
                StepModel::CopyIfPresent {
                    from: paths::joined(base, "go.sum"@),
                    to: paths::joined(dir, "go.sum"@),
                },
            ],
            temp: TempModel::Dir(dir),
        }
    } else {
        let file = paths::joined(base, temp_name(run_id) + "."@ + extension);
        EditModel {
            file,
            steps: seq![StepModel::WriteFile { path: file, code }],
            temp: TempModel::File(file),
        }
    }
}

/// The step before every run in a scenario of that program.
pub open spec fn install_steps(program: Seq<char>, base: Seq<char>) -> Seq<StepModel> {
    if program == "python3"@ {
        seq![StepModel::Install(base)]
    } else {
        seq![]
    }
}

/// How a program runs a file.
pub open spec fn plan_with(
    program: Seq<char>,
    base: Seq<char>,
    path: Seq<char>,
    edit_steps: Seq<StepModel>,
    temp: Option<TempModel>,
    timeout_secs: Option<u64>,
) -> PlanModel {
    PlanModel {
        steps: install_steps(program, base) + edit_steps,
        program,
        args: if program == "go"@ {
            seq!["run"@, "."@]
        } else {
            seq![path]
        },
        work_dir: if program == "go"@ {
            paths::parent(path)
        } else {
            base
        },
        timeout_secs: match timeout_secs {
            Some(secs) => secs,
            None => 120,
        },
        temp,
    }
}

/// How a file of a scenario is run, with edited code and the identifier of the run
/// where the code was edited; or the extension that nothing runs. The interpreter
/// follows from the extension alone.
pub open spec fn plan_of(
    base: Seq<char>,
    filename: Seq<char>,
    edited: Option<(Seq<char>, Seq<char>)>,
    timeout_secs: Option<u64>,
) -> Result<PlanModel, Seq<char>> {
    let script = paths::joined(base, filename);
    let extension = text::lowered(paths::extension(script));
    match interpreter(extension) {
        Some(program) => match edited {
            Some((code, run_id)) => {
                let edit = edit_of(base, filename, extension, code, run_id);
                Ok(plan_with(program, base, edit.file, edit.steps, Some(edit.temp), timeout_secs))
            },
            None => Ok(plan_with(program, base, script, seq![], None, timeout_secs)),
        },
        None => Err(extension),
    }
}

/// Where edited code goes.
pub fn plan_edit(base: &str, filename: &str, extension: &str, code: String, run_id: &str) -> (r:
    EditPlan)
    ensures
        r.model() == edit_of(base@, filename@, extension@, code@, run_id@),
{
    let ghost model = edit_of(base@, filename@, extension@, code@, run_id@);
    let name = text::concat2(".tmp_run_", run_id);
    if text::same(extension, "go") {
        let dir = paths::path_join(base, name.as_str());
        let file = paths::path_join(dir.as_str(), filename);
        let steps = vec![
            Step::CreateDir(dir.clone()),
            Step::WriteFile { path: file.clone(), code },
            Step::CopyIfPresent {
                from: paths::path_join(base, "go.mod"),
                to: paths::path_join(dir.as_str(), "go.mod"),
            },
            Step::CopyIfPresent {
                from: paths::path_join(base, "go.sum"),
                to: paths::path_join(dir.as_str(), "go.sum"),
            },
        ];
        assert(steps_model(steps@) =~= model.steps);
        EditPlan { file, steps, temp: Temp::Dir(dir) }
    } else {
        let full_name = text::concat3(name.as_str(), ".", extension);
        let file = paths::path_join(base, full_name.as_str());
        let steps = vec![Step::WriteFile { path: file.clone(), code }];
        assert(steps_model(steps@) =~= model.steps);
        EditPlan { temp: Temp::File(file.clone()), file, steps }
    }
}

fn plan_program(
    program: &'static str,
    base: &str,
    path: String,
    edit_steps: Vec<Step>,
    temp: Option<Temp>,
    timeout_secs: Option<u64>,
) -> (r: RunPlan)
    ensures
        r.model() == plan_with(
            program@,
            base@,
            path@,
            steps_model(edit_steps@),
            match temp {
                Some(temp) => Some(temp.model()),
                None => None,
            },
            timeout_secs,
        ),
{
    let mut steps: Vec<Step> = Vec::new();
    let mut edit_steps = edit_steps;
    let ghost given = edit_steps@;
    if text::same(program, "python3") {
        steps.push(Step::Install(String::from_str(base)));
    }
    steps.append(&mut edit_steps);
    assert(steps_model(steps@) =~= install_steps(program@, base@) + steps_model(given));
    let is_go = text::same(program, "go");
    let work_dir = if is_go {
        paths::parent_dir(path.as_str())
    } else {
        String::from_str(base)
    };
    let args = if is_go {
        vec![String::from_str("run"), String::from_str(".")]
    } else {
        vec![path]
    };
    assert(text::texts(args@) =~= if is_go {
        seq!["run"@, "."@]
    } else {
        seq![path@]
    });
    let timeout_secs: u64 = match timeout_secs {
        Some(secs) => secs,
        None => 120,
    };
    RunPlan { steps, program, args, work_dir, timeout_secs, temp }
}

/// Edited code with the identifier of its run, where there is any.
pub open spec fn edited_model(edited: Option<(String, String)>) -> Option<(Seq<char>, Seq<char>)> {
    match edited {
        Some((code, run_id)) => Some((code@, run_id@)),
        None => None,
    }
}

/// How a file of a scenario is run, or the extension that nothing runs.
pub fn plan_run(
    base: &str,
    filename: &str,
    edited: Option<(String, String)>,
    timeout_secs: Option<u64>,
) -> (r: Result<RunPlan, String>)
    ensures
        plan_of(base@, filename@, edited_model(edited), timeout_secs) == (match r {
            Ok(plan) => Ok::<PlanModel, Seq<char>>(plan.model()),
            Err(extension) => Err::<PlanModel, Seq<char>>(extension@),
        }),
{
    let script = paths::path_join(base, filename);
    let extension = text::lowercase_text(paths::file_extension(script.as_str()).as_str());
    let program = match interpreter_for(extension.as_str()) {
        Some(program) => program,
        None => {
            return Err(extension);
        },
    };
    match edited {
        Some((code, run_id)) => {
            let edit = plan_edit(base, filename, extension.as_str(), code, run_id.as_str());
            Ok(plan_program(program, base, edit.file, edit.steps, Some(edit.temp), timeout_secs))
        },
        None => {
            let none: Vec<Step> = Vec::new();
            assert(steps_model(none@) =~= seq![]);
            Ok(plan_program(program, base, script, none, None, timeout_secs))
        },
    }
}

// ------------------------------------------------------------------------ laws

pub(crate) proof fn lemma_plain_temp_name(run_id: Seq<char>, extension: Seq<char>)
    requires
        is_run_id(run_id),
        interpreter(extension) is Some,
    ensures
        paths::is_plain_name(temp_name(run_id)),
        paths::is_plain_name(temp_name(run_id) + "."@ + extension),
        temp_name(run_id)[0] == '.',
        (temp_name(run_id) + "."@ + extension)[0] == '.',
        temp_name(run_id).len() == 45,
        temp_name(run_id).last() != '/',
{
    reveal_strlit(".tmp_run_");
    reveal_strlit(".");
    reveal_strlit("py");
    reveal_strlit("go");
    reveal_strlit("sh");
    reveal_strlit("bash");
    reveal_strlit("js");
    reveal_strlit("mjs");
    let name = temp_name(run_id);
    assert forall|i: int| 0 <= i < name.len() implies name[i] != '/' by {
        if i >= 9 {
            assert(name[i] == run_id[i - 9]);
        }
    }
    let full = name + "."@ + extension;
    assert forall|i: int| 0 <= i < full.len() implies full[i] != '/' by {
        if i < 45 {
            assert(full[i] == name[i]);
        } else if i > 45 {
            assert(full[i] == extension[i - 46]);
        }
    }
    assert(full[0] == name[0]);
}

/// The path that a step makes or writes to.
pub open spec fn target(step: StepModel) -> Option<Seq<char>> {
    match step {
        StepModel::Install(_) => None,
        StepModel::CreateDir(dir) => Some(dir),
        StepModel::WriteFile { path, .. } => Some(path),
        StepModel::CopyIfPresent { to, .. } => Some(to),
    }
}

/// Running edited code leaves the example alone: nothing that is written for it goes
/// to the path of the example.
pub proof fn lemma_edit_spares_the_example(
    base: Seq<char>,
    filename: Seq<char>,
    extension: Seq<char>,
    code: Seq<char>,
    run_id: Seq<char>,
)
    requires
        paths::is_plain_name(filename),
        filename[0] != '.',
        is_run_id(run_id),
        interpreter(extension) is Some,
    ensures
        ({
            let edit = edit_of(base, filename, extension, code, run_id);
            let script = paths::joined(base, filename);
            &&& edit.file != script
            &&& edit.temp != TempModel::File(script)
            &&& edit.temp != TempModel::Dir(script)
            &&& forall|k: int|
                0 <= k < edit.steps.len() ==> target(#[trigger] edit.steps[k]) != Some(script)
        }),
{
    lemma_plain_temp_name(run_id, extension);
    let edit = edit_of(base, filename, extension, code, run_id);
    let script = paths::joined(base, filename);
    if extension == "go"@ {
        let dir = paths::joined(base, temp_name(run_id));
        reveal_strlit("/");
        reveal_strlit("go.mod");
        reveal_strlit("go.sum");
        if dir == script {
            paths::lemma_joined_is_injective(base, temp_name(run_id), filename);
        }
        assert(filename[0] != '/') by {
            if filename[0] == '/' {
                assert(filename.contains(filename[0]));
            }
        }
        assert(dir.last() == temp_name(run_id).last());
        assert(dir.len() >= base.len() + 45);
        assert(edit.file.len() == dir.len() + 1 + filename.len());
        assert(script.len() <= base.len() + 1 + filename.len());
        assert(paths::is_plain_name("go.mod"@));
        assert(paths::is_plain_name("go.sum"@));
        paths::lemma_joined_ends_in_name(base, filename);
        paths::lemma_joined_ends_in_name(dir, "go.mod"@);
        paths::lemma_joined_ends_in_name(dir, "go.sum"@);
        assert(paths::joined(dir, "go.mod"@).len() == dir.len() + 7);
        assert(paths::joined(dir, "go.sum"@).len() == dir.len() + 7);
        assert forall|k: int| 0 <= k < edit.steps.len() implies target(#[trigger] edit.steps[k])
            != Some(script) by {
            assert(k == 0 || k == 1 || k == 2 || k == 3);
        }
    } else {
        if edit.file == script {
            paths::lemma_joined_is_injective(
                base,
                temp_name(run_id) + "."@ + extension,
                filename,
            );
        }
    }
}

/// Whether a file has a name of its own that is not hidden, and the program of its
/// language runs it.
pub open spec fn runs_by_name(file: FileSpec) -> bool {
    let name = file.filename@;
    &&& paths::is_plain_name(name)
    &&& name[0] != '.'
    &&& interpreter(text::lowered(paths::extension(name))) == if file.language@ == "go"@ {
        Some("go"@)
    } else {
        Some("python3"@)
    }
}

proof fn lemma_ends_in(name: Seq<char>, a: char, b: char)
    requires
        name.len() > 3,
        name[name.len() - 3] == '.',
        name[name.len() - 2] == a,
        name[name.len() - 1] == b,
        'a' <= a <= 'z',
        'a' <= b <= 'z',
        forall|i: int| 0 <= i < name.len() ==> name[i] != '/',
    ensures
        paths::is_plain_name(name),
        text::lowered(paths::extension(name)) == seq![a, b],
{
    paths::lemma_extension(name, name.len() - 3);
    let extension = paths::extension(name);
    assert(extension =~= seq![a, b]);
    assert(vstd::utf8::is_ascii_chars(extension));
    assert(text::lowered(extension) =~= seq![a, b]);
}

proof fn lemma_runs_python(file: FileSpec)
    requires
        file.language@ == "python"@,
        file.filename@.len() > 3,
        file.filename@[0] != '.',
        file.filename@[file.filename@.len() - 3] == '.',
        file.filename@[file.filename@.len() - 2] == 'p',
        file.filename@[file.filename@.len() - 1] == 'y',
        forall|i: int| 0 <= i < file.filename@.len() ==> file.filename@[i] != '/',
    ensures
        runs_by_name(file),
{
    lemma_ends_in(file.filename@, 'p', 'y');
    reveal_strlit("py");
    reveal_strlit("python");
    reveal_strlit("go");
    assert("py"@ =~= seq!['p', 'y']);
    assert("python"@.len() != "go"@.len());
}

proof fn lemma_code_sandbox_quickstart_runs(j: int)
    requires
        0 <= j < registry::code_sandbox_quickstart_files().len(),
    ensures
        runs_by_name(registry::code_sandbox_quickstart_files()[j]),
{
    let file = registry::code_sandbox_quickstart_files()[j];
    if j == 0 {
        reveal_strlit("create.py");
        lemma_runs_python(file);
    } else if j == 1 {
        reveal_strlit("exec_code.py");
        lemma_runs_python(file);
    } else if j == 2 {
        reveal_strlit("cmd.py");
        lemma_runs_python(file);
    } else if j == 3 {
        reveal_strlit("read.py");
        lemma_runs_python(file);
    } else {
        reveal_strlit("pause.py");
        lemma_runs_python(file);
    }
}

proof fn lemma_network_policy_runs(j: int)
    requires
        0 <= j < registry::network_policy_files().len(),
    ensures
        runs_by_name(registry::network_policy_files()[j]),
{
    let file = registry::network_policy_files()[j];
    if j == 0 {
        reveal_strlit("network_no_internet.py");
        lemma_runs_python(file);
    } else if j == 1 {
        reveal_strlit("network_allowlist.py");
        lemma_runs_python(file);
    } else {
        reveal_strlit("network_denylist.py");
        lemma_runs_python(file);
    }
}

proof fn lemma_host_mount_runs(j: int)
    requires
        0 <= j < registry::host_mount_files().len(),
    ensures
        runs_by_name(registry::host_mount_files()[j]),
{
    let file = registry::host_mount_files()[j];
    reveal_strlit("create_with_mount.py");
    lemma_runs_python(file);
}

proof fn lemma_browser_sandbox_runs(j: int)
    requires
        0 <= j < registry::browser_sandbox_files().len(),
    ensures
        runs_by_name(registry::browser_sandbox_files()[j]),
{
    let file = registry::browser_sandbox_files()[j];
    reveal_strlit("browser.py");
    lemma_runs_python(file);
}

proof fn lemma_snapshot_rollback_clone_runs(j: int)
    requires
        0 <= j < registry::snapshot_rollback_clone_files().len(),
    ensures
        runs_by_name(registry::snapshot_rollback_clone_files()[j]),
{
    let file = registry::snapshot_rollback_clone_files()[j];
    if j == 0 {
        reveal_strlit("01_create_snapshot.py");
        lemma_runs_python(file);
    } else if j == 1 {
        reveal_strlit("02_list_snapshots.py");
        lemma_runs_python(file);
    } else if j == 2 {
        reveal_strlit("03_clone_from_snapshot.py");
        lemma_runs_python(file);
    } else if j == 3 {
        reveal_strlit("04_state_preserved.py");
        lemma_runs_python(file);
    } else if j == 4 {
        reveal_strlit("05_snapshot_outlives_sandbox.py");
        lemma_runs_python(file);
    } else if j == 5 {
        reveal_strlit("06_clone_n.py");
        lemma_runs_python(file);
    } else if j == 6 {
        reveal_strlit("07_clone_concurrent.py");
        lemma_runs_python(file);
    } else if j == 7 {
        reveal_strlit("08_fork_three_axis.py");
        lemma_runs_python(file);
    } else if j == 8 {
        reveal_strlit("09_rollback.py");
        lemma_runs_python(file);
    } else if j == 9 {
        reveal_strlit("10_rollback_then_continue.py");
        lemma_runs_python(file);
    } else if j == 10 {
        reveal_strlit("11_delete_snapshot.py");
        lemma_runs_python(file);
    } else if j == 11 {
        reveal_strlit("clone_demo.py");
        lemma_runs_python(file);
    } else {
        reveal_strlit("rollback_demo.py");
        lemma_runs_python(file);
    }
}

proof fn lemma_e2b_dev_sidecar_runs(j: int)
    requires
        0 <= j < registry::e2b_dev_sidecar_files().len(),
    ensures
        runs_by_name(registry::e2b_dev_sidecar_files()[j]),
{
    let file = registry::e2b_dev_sidecar_files()[j];
    reveal_strlit("demo.py");
    lemma_runs_python(file);
}

proof fn lemma_cubesandbox_base_nginx_runs(j: int)
    requires
        0 <= j < registry::cubesandbox_base_nginx_files().len(),
    ensures
        runs_by_name(registry::cubesandbox_base_nginx_files()[j]),
{
    let file = registry::cubesandbox_base_nginx_files()[j];
    reveal_strlit("test_files.py");
    lemma_runs_python(file);
}

proof fn lemma_cube_bench_runs(j: int)
    requires
        0 <= j < registry::cube_bench_files().len(),
    ensures
        runs_by_name(registry::cube_bench_files()[j]),
{
    let file = registry::cube_bench_files()[j];
    reveal_strlit("main.go");
    reveal_strlit("go");
    lemma_ends_in(file.filename@, 'g', 'o');
    assert("go"@ =~= seq!['g', 'o']);
    reveal_strlit("py");
    assert("py"@[0] == 'p');
}

/// Every example that is offered can be run: a Python file by `python3`, a Go file
/// by `go`, wherever the examples lie and whether or not the code was edited.
pub proof fn lemma_offered_examples_run(
    i: int,
    j: int,
    base: Seq<char>,
    edited: Option<(Seq<char>, Seq<char>)>,
    timeout_secs: Option<u64>,
)
    requires
        0 <= i < registry::registry().len(),
        !registry::registry()[i].hidden,
        0 <= j < registry::registry()[i].files.len(),
    ensures
        runs_by_name(registry::registry()[i].files[j]),
        plan_of(base, registry::registry()[i].files[j].filename@, edited, timeout_secs) matches Ok(
            plan,
        ) && plan.program == if registry::registry()[i].files[j].language@ == "go"@ {
            "go"@
        } else {
            "python3"@
        },
{
    if i == 0 {
        lemma_code_sandbox_quickstart_runs(j);
    } else if i == 1 {
        lemma_network_policy_runs(j);
    } else if i == 2 {
        lemma_host_mount_runs(j);
    } else if i == 3 {
        lemma_browser_sandbox_runs(j);
    } else if i == 4 {
        lemma_snapshot_rollback_clone_runs(j);
    } else if i == 5 {
        lemma_e2b_dev_sidecar_runs(j);
    } else if i == 6 {
        lemma_cubesandbox_base_nginx_runs(j);
    } else {
        lemma_cube_bench_runs(j);
    }
    paths::lemma_joined_ends_in_name(base, registry::registry()[i].files[j].filename@);
}

/// The program of a file follows from its extension, in whatever case: `python3`, `go`,
/// `bash` or `node`. A file with any other extension is refused with it.
pub proof fn lemma_extension_tells_the_program(
    base: Seq<char>,
    filename: Seq<char>,
    edited: Option<(Seq<char>, Seq<char>)>,
    timeout_secs: Option<u64>,
)
    requires
        paths::is_plain_name(filename),
    ensures
        ({
            let extension = text::lowered(paths::extension(filename));
            match plan_of(base, filename, edited, timeout_secs) {
                Ok(plan) => {
                    ||| extension == "py"@ && plan.program == "python3"@
                    ||| extension == "go"@ && plan.program == "go"@
                    ||| (extension == "sh"@ || extension == "bash"@) && plan.program == "bash"@
                    ||| (extension == "js"@ || extension == "mjs"@) && plan.program == "node"@
                },
                Err(refused) => {
                    &&& refused == extension
                    &&& extension != "py"@ && extension != "go"@ && extension != "sh"@
                    &&& extension != "bash"@ && extension != "js"@ && extension != "mjs"@
                },
            }
        }),
{
    paths::lemma_joined_ends_in_name(base, filename);
}

/// A file that was not edited is run where it lies, and nothing is written for it.
pub proof fn lemma_file_is_run_where_it_lies(
    base: Seq<char>,
    filename: Seq<char>,
    timeout_secs: Option<u64>,
)
    ensures
        plan_of(base, filename, None, timeout_secs) matches Ok(plan) ==> {
            &&& plan.temp is None
            &&& forall|k: int| 0 <= k < plan.steps.len() ==> (#[trigger] plan.steps[k]) is Install
            &&& plan.program != "go"@ ==> plan.args == seq![paths::joined(base, filename)]
                && plan.work_dir == base
            &&& plan.program == "go"@ ==> plan.args == seq!["run"@, "."@] && plan.work_dir
                == paths::parent(paths::joined(base, filename))
        },
{
}

/// Whether a step writes that code, to the file that the process runs.
pub open spec fn runs_what_is_written(
    plan: PlanModel,
    step: StepModel,
    base: Seq<char>,
    code: Seq<char>,
) -> bool {
    step matches StepModel::WriteFile { path, code: written } && written == code && if plan.program
        == "go"@ {
        plan.args == seq!["run"@, "."@] && plan.work_dir == paths::parent(path)
    } else {
        plan.args == seq![path] && plan.work_dir == base
    }
}

/// Edited code is what runs: it is written once, as it is, and the file with it is the
/// one that the program is given, or for Go the one in the directory that it is built
/// in.
pub proof fn lemma_edited_code_is_what_runs(
    base: Seq<char>,
    filename: Seq<char>,
    code: Seq<char>,
    run_id: Seq<char>,
    timeout_secs: Option<u64>,
)
    ensures
        plan_of(base, filename, Some((code, run_id)), timeout_secs) matches Ok(plan) ==> {
            &&& plan.temp is Some
            &&& exists|k: int|
                0 <= k < plan.steps.len() && runs_what_is_written(
                    plan,
                    #[trigger] plan.steps[k],
                    base,
                    code,
                )
            &&& forall|j: int, k: int|
                0 <= j < k < plan.steps.len() && (#[trigger] plan.steps[j]) is WriteFile ==> !((
                #[trigger] plan.steps[k]) is WriteFile)
        },
{
    if let Ok(plan) = plan_of(base, filename, Some((code, run_id)), timeout_secs) {
        let extension = text::lowered(paths::extension(paths::joined(base, filename)));
        let edit = edit_of(base, filename, extension, code, run_id);
        let first = install_steps(plan.program, base);
        lemma_programs_differ();
        assert(plan.steps =~= first + edit.steps);
        assert forall|k: int| 0 <= k < plan.steps.len() implies #[trigger] plan.steps[k] == if k
            < first.len() {
            first[k]
        } else {
            edit.steps[k - first.len()]
        } by {}
        let n = first.len() as int;
        if extension == "go"@ {
            assert(plan.steps[n + 1] == edit.steps[1]);
            assert(runs_what_is_written(plan, plan.steps[n + 1], base, code));
        } else {
            assert(plan.steps[n] == edit.steps[0]);
            assert(runs_what_is_written(plan, plan.steps[n], base, code));
        }
    }
}

proof fn lemma_programs_differ()
    ensures
        "go"@ != "python3"@,
        "go"@ != "bash"@,
        "go"@ != "node"@,
        "python3"@ != "bash"@,
        "python3"@ != "node"@,
{
    reveal_strlit("go");
    reveal_strlit("python3");
    reveal_strlit("bash");
    reveal_strlit("node");
    assert("go"@.len() == 2 && "python3"@.len() == 7 && "bash"@.len() == 4 && "node"@.len() == 4);
}

/// The requirements of a scenario are seen to before every Python run, first of all,
/// and before no other run.
pub proof fn lemma_requirements_come_first(
    base: Seq<char>,
    filename: Seq<char>,
    edited: Option<(Seq<char>, Seq<char>)>,
    timeout_secs: Option<u64>,
)
    ensures
        plan_of(base, filename, edited, timeout_secs) matches Ok(plan) ==> {
            &&& plan.program == "python3"@ ==> plan.steps.len() > 0 && plan.steps[0]
                == StepModel::Install(base)
            &&& plan.program != "python3"@ ==> forall|k: int|
                0 <= k < plan.steps.len() ==> !((#[trigger] plan.steps[k]) is Install)
        },
{
}

/// Edited Go code is built as a package of its own: its directory is made first, and
/// the files that make it a module are copied there from the scenario.
pub proof fn lemma_edited_package_is_a_module(
    base: Seq<char>,
    filename: Seq<char>,
    code: Seq<char>,
    run_id: Seq<char>,
    timeout_secs: Option<u64>,
)
    ensures
        plan_of(base, filename, Some((code, run_id)), timeout_secs) matches Ok(plan) ==> (
        plan.program == "go"@ ==> {
            &&& plan.temp matches Some(TempModel::Dir(dir))
            &&& plan.steps.len() > 0
            &&& plan.steps[0] == StepModel::CreateDir(dir)
            &&& plan.steps.contains(
                StepModel::WriteFile { path: paths::joined(dir, filename), code },
            )
            &&& plan.steps.contains(
                StepModel::CopyIfPresent {
                    from: paths::joined(base, "go.mod"@),
                    to: paths::joined(dir, "go.mod"@),
                },
            )
            &&& plan.steps.contains(
                StepModel::CopyIfPresent {
                    from: paths::joined(base, "go.sum"@),
                    to: paths::joined(dir, "go.sum"@),
                },
            )
        }),
{
    lemma_programs_differ();
    if let Ok(plan) = plan_of(base, filename, Some((code, run_id)), timeout_secs) {
        if plan.program == "go"@ {
            let edit = edit_of(base, filename, "go"@, code, run_id);
            assert(plan.steps =~= edit.steps);
            assert(plan.steps[1] == edit.steps[1]);
            assert(plan.steps[2] == edit.steps[2]);
            assert(plan.steps[3] == edit.steps[3]);
        }
    }
}

/// A run has the time that its scenario gives it, and two minutes where it gives none.
pub proof fn lemma_run_has_its_time(
    base: Seq<char>,
    filename: Seq<char>,
    edited: Option<(Seq<char>, Seq<char>)>,
    timeout_secs: Option<u64>,
)
    ensures
        plan_of(base, filename, edited, timeout_secs) matches Ok(plan) ==> match timeout_secs {
            Some(secs) => plan.timeout_secs == secs,
            None => plan.timeout_secs == 120,
        },
{
}

/// Two runs of edited code do not meet: what is made for one is not what is made for
/// the other.
pub proof fn lemma_runs_do_not_meet(
    base: Seq<char>,
    filename: Seq<char>,
    code: Seq<char>,
    a: Seq<char>,
    b: Seq<char>,
    timeout_secs: Option<u64>,
)
    requires
        is_run_id(a),
        is_run_id(b),
        a != b,
    ensures
        plan_of(base, filename, Some((code, a)), timeout_secs) matches Ok(plan) ==> (plan_of(
            base,
            filename,
            Some((code, b)),
            timeout_secs,
        ) matches Ok(other) && plan.temp != other.temp),
{
    let extension = text::lowered(paths::extension(paths::joined(base, filename)));
    if interpreter(extension) is Some {
        lemma_plain_temp_name(a, extension);
        lemma_plain_temp_name(b, extension);
        reveal_strlit(".tmp_run_");
        assert(temp_name(a).skip(9) =~= a);
        assert(temp_name(b).skip(9) =~= b);
        if extension == "go"@ {
            if paths::joined(base, temp_name(a)) == paths::joined(base, temp_name(b)) {
                paths::lemma_joined_is_injective(base, temp_name(a), temp_name(b));
            }
        } else {
            let x = temp_name(a) + "."@ + extension;
            let y = temp_name(b) + "."@ + extension;
            assert(x.take(45) =~= temp_name(a));
            assert(y.take(45) =~= temp_name(b));
            if paths::joined(base, x) == paths::joined(base, y) {
                paths::lemma_joined_is_injective(base, x, y);
            }
        }
    }
}

/// What is made for edited code lies in the directory of its scenario, under a name
/// with the identifier of the run and, for a file, with the extension that it is run by.
pub proof fn lemma_edited_code_lies_in_the_scenario(
    base: Seq<char>,
    filename: Seq<char>,
    code: Seq<char>,
    run_id: Seq<char>,
    timeout_secs: Option<u64>,
)
    ensures
        plan_of(base, filename, Some((code, run_id)), timeout_secs) matches Ok(plan) ==> {
            let extension = text::lowered(paths::extension(paths::joined(base, filename)));
            if extension == "go"@ {
                plan.temp == Some(TempModel::Dir(paths::joined(base, ".tmp_run_"@ + run_id)))
            } else {
                plan.temp == Some(
                    TempModel::File(
                        paths::joined(base, ".tmp_run_"@ + run_id + "."@ + extension),
                    ),
                ) && plan.args == seq![
                    paths::joined(base, ".tmp_run_"@ + run_id + "."@ + extension),
                ]
            }
        },
{
    lemma_programs_differ();
}

} // verus!
