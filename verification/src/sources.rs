//! The source of an example.

use vstd::prelude::*;
use vstd::string::StringExecFns;

use crate::environment;
use crate::environment::{Host, HostModel};
use crate::error::{AppError, ErrorModel};
use crate::examples;
use crate::examples::{ExampleMeta, MetaModel};
use crate::json;
use crate::json::{Json, JsonModel};
use crate::paths;
use crate::plan;
use crate::registry;
use crate::registry::{FileSpec, ScenarioModel};
use crate::replies;
use crate::text;

verus! {

/// A file to be read for a request.
pub struct SourceFile {
    pub meta: ExampleMeta,
    pub path: String,
}

/// The answer of the public endpoint.
pub struct SourceReply {
    pub status: u16,
    pub body: Json,
}

/// The example with these identifiers, as they are offered.
pub open spec fn example(scenario: Seq<char>, file: Seq<char>) -> Option<
    (ScenarioModel, FileSpec),
> {
    examples::resolved(registry::registry(), examples::full_id(scenario, file))
}

/// Whether a file is the one to be read for these identifiers.
pub open spec fn is_source_of(
    source: SourceFile,
    scenario: Seq<char>,
    file: Seq<char>,
    host: HostModel,
) -> bool {
    example(scenario, file) matches Some((found, spec)) && {
        &&& source.meta.model() == examples::meta_of(found, spec, registry::languages())
        &&& source.path@ == paths::joined(
            environment::scenario_dir(host, found.id@),
            spec.filename@,
        )
    }
}

/// The body of an answer with a source.
pub open spec fn source_body(meta: MetaModel, source: Seq<char>) -> JsonModel {
    JsonModel::Object(
        map![
            "id"@ => JsonModel::Text(meta.id),
            "filename"@ => JsonModel::Text(meta.filename),
            "scenario"@ => JsonModel::Text(meta.scenario),
            "language"@ => JsonModel::Text(meta.language),
            "source"@ => JsonModel::Text(source),
        ],
    )
}

/// The body of an answer with an error.
pub open spec fn error_body(error: Seq<char>) -> JsonModel {
    JsonModel::Object(map!["error"@ => JsonModel::Text(error)])
}

/// What is said of a file that could not be read.
pub open spec fn unreadable(path: Seq<char>, error: Seq<char>) -> Seq<char> {
    "Failed to read '"@ + path + "': "@ + error
}

fn add_text(entries: &mut Vec<(String, Json)>, name: &str, value: String)
    ensures
        json::object_model(final(entries)@) == json::object_model(old(entries)@).insert(
            name@,
            JsonModel::Text(value@),
        ),
{
    let ghost before = entries@;
    let member = Json::Text(value);
    assert(member.model() == JsonModel::Text(value@));
    entries.push((String::from_str(name), member));
    assert(entries@.drop_last() =~= before);
}

fn build_source_body(meta: ExampleMeta, source: String) -> (r: Json)
    ensures
        r.model() == source_body(meta.model(), source@),
{
    let mut entries: Vec<(String, Json)> = Vec::new();
    add_text(&mut entries, "id", meta.id);
    add_text(&mut entries, "filename", meta.filename);
    add_text(&mut entries, "scenario", meta.scenario);
    add_text(&mut entries, "language", meta.language);
    add_text(&mut entries, "source", source);
    Json::Object(entries)
}

fn build_error_body(error: String) -> (r: Json)
    ensures
        r.model() == error_body(error@),
{
    let mut entries: Vec<(String, Json)> = Vec::new();
    add_text(&mut entries, "error", error);
    Json::Object(entries)
}

fn describe_unreadable(path: &str, error: &str) -> (r: String)
    ensures
        r@ == unreadable(path@, error@),
{
    let mut out = text::concat3("Failed to read '", path, "': ");
    out.append(error);
    out
}

/// What came of the reading of a file.
pub open spec fn read_model(read: Result<String, String>) -> Result<Seq<char>, Seq<char>> {
    match read {
        Ok(source) => Ok(source@),
        Err(error) => Err(error@),
    }
}

/// The file to be read for these identifiers, or what is said where they mean no
/// example.
pub fn find_source(scenario: &str, file: &str, host: &Host) -> (r: Result<SourceFile, String>)
    ensures
        match r {
            Ok(source) => is_source_of(source, scenario@, file@, host.model()),
            Err(message) => {
                &&& example(scenario@, file@) is None
                &&& message@ == replies::not_found(examples::full_id(scenario@, file@))
            },
        },
{
    let id = text::concat3(scenario, ":", file);
    match examples::resolve_visible(id.as_str()) {
        Some((meta, found, spec)) => {
            let dir = environment::dir_of_scenario(host, found.id);
            let path = paths::path_join(dir.as_str(), spec.filename);
            Ok(SourceFile { meta, path })
        },
        None => Err(replies::not_found_message(id.as_str())),
    }
}

// ---------------------------------------------------------- the public endpoint

/// The file to be read for a request, or the answer where there is no such example.
pub fn get_example_source(scenario: &str, file: &str, host: &Host) -> (r: Result<
    SourceFile,
    SourceReply,
>)
    ensures
        match r {
            Ok(source) => is_source_of(source, scenario@, file@, host.model()),
            Err(reply) => {
                &&& example(scenario@, file@) is None
                &&& reply.status == 404
                &&& reply.body.model() == error_body(
                    replies::not_found(examples::full_id(scenario@, file@)),
                )
            },
        },
{
    match find_source(scenario, file, host) {
        Ok(source) => Ok(source),
        Err(message) => Err(SourceReply { status: 404, body: build_error_body(message) }),
    }
}

/// The answer of the public endpoint, once the file was read or could not be.
pub fn source_reply(source: SourceFile, read: Result<String, String>) -> (r: SourceReply)
    ensures
        match read_model(read) {
            Ok(content) => r.status == 200 && r.body.model() == source_body(
                source.meta.model(),
                content,
            ),
            Err(error) => r.status == 500 && r.body.model() == error_body(
                unreadable(source.path@, error),
            ),
        },
{
    match read {
        Ok(content) => SourceReply { status: 200, body: build_source_body(source.meta, content) },
        Err(error) => SourceReply {
            status: 500,
            body: build_error_body(describe_unreadable(source.path.as_str(), error.as_str())),
        },
    }
}

// --------------------------------------------------------------------- the service

/// What the example service gives back, once the file was read or could not be.
pub fn source_result(source: SourceFile, read: Result<String, String>) -> (r: Result<
    Json,
    AppError,
>)
    ensures
        match (read_model(read), r) {
            (Ok(content), Ok(body)) => body.model() == source_body(source.meta.model(), content),
            (Err(reason), Err(error)) => error.model() == ErrorModel::Internal(
                unreadable(source.path@, reason),
            ),
            _ => false,
        },
{
    match read {
        Ok(content) => Ok(build_source_body(source.meta, content)),
        Err(error) => Err(
            AppError::Internal(describe_unreadable(source.path.as_str(), error.as_str())),
        ),
    }
}

// ------------------------------------------------------------------------ laws

proof fn lemma_plain(name: Seq<char>)
    requires
        name.len() > 0,
        forall|k: int| 0 <= k < name.len() ==> name[k] != '/',
    ensures
        paths::is_plain_name(name),
{
}

proof fn lemma_offered_scenario_has_a_plain_name(i: int)
    requires
        0 <= i < registry::registry().len(),
        !registry::registry()[i].hidden,
    ensures
        paths::is_plain_name(registry::registry()[i].id@),
{
    if i == 0 {
        reveal_strlit("code-sandbox-quickstart");
        lemma_plain("code-sandbox-quickstart"@);
    } else if i == 1 {
        reveal_strlit("network-policy");
        lemma_plain("network-policy"@);
    } else if i == 2 {
        reveal_strlit("host-mount");
        lemma_plain("host-mount"@);
    } else if i == 3 {
        reveal_strlit("browser-sandbox");
        lemma_plain("browser-sandbox"@);
    } else if i == 4 {
        reveal_strlit("snapshot-rollback-clone");
        lemma_plain("snapshot-rollback-clone"@);
    } else if i == 5 {
        reveal_strlit("e2b-dev-sidecar");
        lemma_plain("e2b-dev-sidecar"@);
    } else if i == 6 {
        reveal_strlit("cubesandbox-base-nginx");
        lemma_plain("cubesandbox-base-nginx"@);
    } else {
        reveal_strlit("cube-bench");
        lemma_plain("cube-bench"@);
    }
}

/// The source of an example lies in the directory of its scenario, which lies in the
/// directory with the examples (of whose path a slash at the end is no part).
pub proof fn lemma_source_lies_in_its_scenario(host: HostModel, i: int, j: int)
    requires
        0 <= i < registry::registry().len(),
        !registry::registry()[i].hidden,
        0 <= j < registry::registry()[i].files.len(),
    ensures
        ({
            let scenario = registry::registry()[i];
            let dir = environment::scenario_dir(host, scenario.id@);
            let root = paths::root(host.examples_dir, host.manifest_dir);
            let path = paths::joined(dir, scenario.files[j].filename@);
            &&& paths::parent(path) == dir
            &&& paths::file_name(path) == scenario.files[j].filename@
            &&& paths::file_name(dir) == scenario.id@
            &&& root.len() > 0 && root.last() != '/' ==> paths::parent(dir) == root
        }),
{
    let scenario = registry::registry()[i];
    let root = paths::root(host.examples_dir, host.manifest_dir);
    let dir = environment::scenario_dir(host, scenario.id@);
    lemma_offered_scenario_has_a_plain_name(i);
    plan::lemma_offered_examples_run(i, j, dir, None, None);
    if root.len() > 0 && root.last() != '/' {
        paths::lemma_joined_lies_in_base(root, scenario.id@);
    }
    paths::lemma_joined_ends_in_name(root, scenario.id@);
    assert(dir.last() == scenario.id@.last());
    assert(scenario.id@.contains(scenario.id@.last()));
    paths::lemma_joined_lies_in_base(dir, scenario.files[j].filename@);
    paths::lemma_joined_ends_in_name(dir, scenario.files[j].filename@);
}

/// The answer with a source holds the source as it was read, and says of which example
/// it is.
pub proof fn lemma_answer_holds_the_source(meta: MetaModel, source: Seq<char>)
    ensures
        source_body(meta, source).member_text("source"@) == Some(source),
        source_body(meta, source).member_text("id"@) == Some(meta.id),
        source_body(meta, source).member_text("filename"@) == Some(meta.filename),
        source_body(meta, source).member_text("scenario"@) == Some(meta.scenario),
        source_body(meta, source).member_text("language"@) == Some(meta.language),
        source_body(meta, source).member("error"@) is None,
{
    reveal_strlit("source");
    reveal_strlit("id");
    reveal_strlit("filename");
    reveal_strlit("scenario");
    reveal_strlit("language");
    reveal_strlit("error");
    assert("source"@.len() == 6 && "id"@.len() == 2 && "error"@.len() == 5);
    assert("filename"@.len() == 8 && "scenario"@.len() == 8 && "language"@.len() == 8);
    assert("filename"@[0] == 'f' && "scenario"@[0] == 's' && "language"@[0] == 'l');
}

/// An answer with an error holds nothing but the error, which for a file that could not
/// be read names the file and the reason.
pub proof fn lemma_error_is_told(path: Seq<char>, error: Seq<char>)
    ensures
        error_body(error).member_text("error"@) == Some(error),
        error_body(error).member("source"@) is None,
        unreadable(path, error) == "Failed to read '"@ + path + "': "@ + error,
{
    reveal_strlit("source");
    reveal_strlit("error");
    assert("source"@.len() == 6 && "error"@.len() == 5);
}

/// The source that is read is that of the example which the two identifiers mean: the
/// file that would be run.
pub proof fn lemma_source_is_what_would_run(
    source: SourceFile,
    scenario: Seq<char>,
    file: Seq<char>,
    host: HostModel,
)
    requires
        is_source_of(source, scenario, file, host),
    ensures
        source.meta.id@ == scenario + ":"@ + file,
        plan::plan_of(
            environment::scenario_dir(host, source.meta.scenario@),
            source.meta.filename@,
            None,
            None,
        ) matches Ok(plan) ==> (plan.program != "go"@ ==> plan.args == seq![source.path@]),
{
    let id = examples::full_id(scenario, file);
    examples::lemma_resolved_is_listed(registry::registry(), registry::languages(), id);
    let (found, spec) = example(scenario, file)->0;
    assert(source.meta.model().id == id);
    plan::lemma_file_is_run_where_it_lies(
        environment::scenario_dir(host, found.id@),
        spec.filename@,
        None,
    );
}

/// A source that was read is answered with it and the status 200; one that could not be
/// read with the reason and 500; one of no example with 404.
pub proof fn lemma_source_is_answered(
    source: SourceFile,
    read: Result<String, String>,
    answer: SourceReply,
    given: Result<Json, AppError>,
)
    requires
        call_ensures(source_reply, (source, read), answer),
        call_ensures(source_result, (source, read), given),
    ensures
        read matches Ok(content) ==> {
            &&& answer.status == 200
            &&& answer.body.model().member_text("source"@) == Some(content@)
            &&& answer.body.model().member_text("id"@) == Some(source.meta.id@)
            &&& given matches Ok(body) && body.model() == answer.body.model()
        },
        read matches Err(error) ==> {
            let message = "Failed to read '"@ + source.path@ + "': "@ + error@;
            &&& answer.status == 500
            &&& answer.body.model().member_text("error"@) == Some(message)
            &&& given matches Err(failure) && failure.model() == ErrorModel::Internal(message)
        },
{
    if let Ok(content) = read {
        lemma_answer_holds_the_source(source.meta.model(), content@);
    }
    if let Err(error) = read {
        lemma_error_is_told(source.path@, unreadable(source.path@, error@));
    }
}

/// A source is read exactly where the identifiers mean an example; else the answer says
/// which was not found, with the status 404.
pub proof fn lemma_unknown_source_is_not_found(
    scenario: &str,
    file: &str,
    host: &Host,
    found: Result<SourceFile, SourceReply>,
)
    requires
        call_ensures(get_example_source, (scenario, file, host), found),
    ensures
        found is Ok <==> examples::resolved(
            registry::registry(),
            scenario@ + ":"@ + file@,
        ) is Some,
        found matches Ok(source) ==> source.meta.id@ == scenario@ + ":"@ + file@,
        found matches Err(reply) ==> reply.status == 404 && reply.body.model().member_text(
            "error"@,
        ) == Some("Example '"@ + (scenario@ + ":"@ + file@) + "' not found"@),
{
    if let Ok(source) = found {
        lemma_source_is_what_would_run(source, scenario@, file@, host.model());
    }
    if let Err(reply) = found {
        lemma_error_is_told(
            seq![],
            replies::not_found(examples::full_id(scenario@, file@)),
        );
    }
}

} // verus!
