//! The public endpoint that runs examples.

use vstd::prelude::*;
use vstd::string::StringExecFns;

use crate::environment;
use crate::environment::{Host, HostModel};
use crate::examples;
use crate::examples::{RequestModel, RunExampleRequest};
use crate::plan;
use crate::registry;
use crate::registry::{FileSpec, ScenarioModel};
use crate::replies;
use crate::replies::RunReply;
use crate::run;
use crate::run::{Run, Setup, SetupModel};
use crate::service;
use crate::templates;
use crate::templates::{Hints, HintsModel};
use crate::text;

verus! {

/// The configuration of the server, as far as examples go.
pub struct Config {
    pub cube_api_url: Option<String>,
    pub default_template_id: Option<String>,
    pub cube_proxy_node_ip: Option<String>,
    pub cube_proxy_port_http: Option<u16>,
    pub sandbox_domain: String,
}

/// What a [`Config`] holds.
pub struct ConfigModel {
    pub cube_api_url: Option<Seq<char>>,
    pub default_template_id: Option<Seq<char>>,
    pub cube_proxy_node_ip: Option<Seq<char>>,
    pub cube_proxy_port_http: Option<u16>,
    pub sandbox_domain: Seq<char>,
}

impl Config {
    pub open spec fn model(self) -> ConfigModel {
        ConfigModel {
            cube_api_url: text::opt_text(self.cube_api_url),
            default_template_id: text::opt_text(self.default_template_id),
            cube_proxy_node_ip: text::opt_text(self.cube_proxy_node_ip),
            cube_proxy_port_http: self.cube_proxy_port_http,
            sandbox_domain: self.sandbox_domain@,
        }
    }
}

// ----------------------------------------------------------------- environment

/// The address of the proxy in front of the sandboxes. The port is left out where it
/// is the usual one.
pub open spec fn remote_proxy(config: ConfigModel) -> Seq<char> {
    let host = match config.cube_proxy_node_ip {
        Some(ip) => ip,
        None => "127.0.0.1"@,
    };
    let port = match config.cube_proxy_port_http {
        Some(port) => if port != 443 {
            ":"@ + text::decimal(port as nat)
        } else {
            seq![]
        },
        None => seq![],
    };
    "https://"@ + host + port
}

/// A key that satisfies a check for one, where no key is set.
pub open spec fn placeholder(name: Seq<char>, key: Seq<char>, is_set: bool) -> Seq<
    (Seq<char>, Seq<char>),
> {
    if is_set {
        seq![]
    } else {
        seq![(name, key)]
    }
}

/// What the scenario with the development sidecar gets besides.
pub open spec fn sidecar_settings(config: ConfigModel, host: HostModel) -> Seq<
    (Seq<char>, Seq<char>),
> {
    seq![("E2B_API_URL"@, environment::configured_url(config.cube_api_url))] + placeholder(
        "E2B_API_KEY"@,
        "e2b_0000000000000000000000000000000000000000"@,
        host.has_e2b_key,
    ) + seq![("CUBE_REMOTE_PROXY_BASE"@, remote_proxy(config))] + seq![
        ("CUBE_REMOTE_PROXY_VERIFY_SSL"@, "false"@),
    ] + seq![("CUBE_REMOTE_SANDBOX_DOMAIN"@, config.sandbox_domain)]
}

/// What the environment of a script holds besides the address of the API and the
/// template.
pub open spec fn settings(scenario: Seq<char>, config: ConfigModel, host: HostModel) -> Seq<
    (Seq<char>, Seq<char>),
> {
    seq![("SSL_CERT_FILE"@, environment::cert_file(host))] + placeholder(
        "CUBE_API_KEY"@,
        "cube_0000000000000000000000000000000000000000"@,
        host.has_api_key,
    ) + environment::if_some("CUBE_PROXY_NODE_IP"@, config.cube_proxy_node_ip)
        + environment::if_some(
        "CUBE_PROXY_PORT_HTTP"@,
        environment::port_text(config.cube_proxy_port_http),
    ) + seq![("CUBE_SANDBOX_DOMAIN"@, config.sandbox_domain)] + if scenario
        == "e2b-dev-sidecar"@ {
        sidecar_settings(config, host)
    } else {
        seq![]
    }
}

fn build_remote_proxy(config: &Config) -> (r: String)
    ensures
        r@ == remote_proxy(config.model()),
{
    let mut out = String::from_str("https://");
    match &config.cube_proxy_node_ip {
        Some(ip) => {
            out.append(ip.as_str());
        },
        None => {
            out.append("127.0.0.1");
        },
    }
    let ghost before = out@;
    if let Some(port) = config.cube_proxy_port_http {
        if port != 443 {
            let suffix = text::concat2(":", text::show_decimal(port as u64).as_str());
            out.append(suffix.as_str());
        }
    }
    assert(before + seq![] =~= before);
    out
}

fn set_placeholder(env: &mut Vec<(String, String)>, name: &str, key: &str, is_set: bool)
    ensures
        text::pairs(final(env)@) == text::pairs(old(env)@) + placeholder(name@, key@, is_set),
{
    let ghost before = env@;
    if is_set {
        assert(text::pairs(env@) =~= text::pairs(before) + seq![]);
    } else {
        environment::set(env, name, String::from_str(key));
    }
}

fn build_settings(scenario: &str, config: &Config, host: &Host) -> (r: Vec<(String, String)>)
    ensures
        text::pairs(r@) == settings(scenario@, config.model(), host.model()),
{
    let mut env: Vec<(String, String)> = Vec::new();
    environment::set(&mut env, "SSL_CERT_FILE", environment::choose_cert_file(host));
    assert(text::pairs(env@) =~= seq![
        ("SSL_CERT_FILE"@, environment::cert_file(host.model())),
    ]);
    set_placeholder(
        &mut env,
        "CUBE_API_KEY",
        "cube_0000000000000000000000000000000000000000",
        host.has_api_key,
    );
    environment::set_if_some(
        &mut env,
        "CUBE_PROXY_NODE_IP",
        environment::copy_opt(&config.cube_proxy_node_ip),
    );
    environment::set_if_some(
        &mut env,
        "CUBE_PROXY_PORT_HTTP",
        environment::show_port(config.cube_proxy_port_http),
    );
    environment::set(&mut env, "CUBE_SANDBOX_DOMAIN", config.sandbox_domain.clone());
    let ghost common = text::pairs(env@);
    if text::same(scenario, "e2b-dev-sidecar") {
        environment::set(
            &mut env,
            "E2B_API_URL",
            environment::choose_url(&config.cube_api_url),
        );
        set_placeholder(
            &mut env,
            "E2B_API_KEY",
            "e2b_0000000000000000000000000000000000000000",
            host.has_e2b_key,
        );
        environment::set(&mut env, "CUBE_REMOTE_PROXY_BASE", build_remote_proxy(config));
        environment::set(&mut env, "CUBE_REMOTE_PROXY_VERIFY_SSL", String::from_str("false"));
        environment::set(
            &mut env,
            "CUBE_REMOTE_SANDBOX_DOMAIN",
            config.sandbox_domain.clone(),
        );
        assert(text::pairs(env@) =~= common + sidecar_settings(config.model(), host.model()));
    } else {
        assert(text::pairs(env@) =~= common + seq![]);
    }
    env
}

// ------------------------------------------------------------------- the start

/// Where the search for a template starts from.
pub open spec fn hints_of(
    request: RequestModel,
    scenario: ScenarioModel,
    config: ConfigModel,
    host: HostModel,
) -> HintsModel {
    HintsModel {
        asked: request.template_id,
        configured: config.default_template_id,
        environment: host.template_id,
        store_item: match scenario.store_item_id {
            Some(item) => Some(item@),
            None => None,
        },
    }
}

/// What a run goes by. The identifier of the run matters where the code was edited.
pub open spec fn setup_of(
    request: RequestModel,
    scenario: ScenarioModel,
    file: FileSpec,
    config: ConfigModel,
    host: HostModel,
    run_id: Seq<char>,
) -> SetupModel {
    SetupModel {
        id: request.id,
        base_dir: environment::scenario_dir(host, scenario.id@),
        filename: file.filename@,
        edited: match request.code {
            Some(code) => Some((code, run_id)),
            None => None,
        },
        timeout_secs: scenario.timeout_secs,
        api_url: environment::configured_url(config.cube_api_url),
        settings: settings(scenario.id@, config, host),
        topology: scenario.topology,
    }
}

/// Whether a run is the one that a request asks for: of the example that its
/// identifier means, at the start of the search for a template.
pub open spec fn is_run_of(
    run: Run,
    request: RequestModel,
    config: ConfigModel,
    host: HostModel,
    run_id: Seq<char>,
) -> bool {
    examples::resolved(registry::registry(), request.id) matches Some((scenario, file)) && {
        &&& run.setup.model() == setup_of(request, scenario, file, config, host, run_id)
        &&& run.state.model() == run::searching(
            run.setup.model(),
            templates::endpoint_search(hints_of(request, scenario, config, host)),
        )
    }
}

/// The run that a request asks for under that identifier, or the answer to a
/// request for no example, with status 404.
pub fn run_example_as(
    request: RunExampleRequest,
    config: &Config,
    host: &Host,
    run_id: String,
) -> (r: Result<Run, RunReply>)
    ensures
        match r {
            Ok(run) => is_run_of(run, request.model(), config.model(), host.model(), run_id@),
            Err(answer) => {
                &&& examples::resolved(registry::registry(), request.id@) is None
                &&& answer.status == 404
                &&& answer.response.model() == replies::not_found_response(request.id@)
            },
        },
{
    match examples::resolve_visible(request.id.as_str()) {
        Some((_, scenario, file)) => {
            let hints = Hints {
                asked: request.template_id,
                configured: environment::copy_opt(&config.default_template_id),
                environment: environment::copy_opt(&host.template_id),
                store_item: match scenario.store_item_id {
                    Some(item) => Some(String::from_str(item)),
                    None => None,
                },
            };
            let setup = Setup {
                id: request.id,
                base_dir: environment::dir_of_scenario(host, scenario.id),
                filename: String::from_str(file.filename),
                edited: match request.code {
                    Some(code) => Some((code, run_id)),
                    None => None,
                },
                timeout_secs: scenario.timeout_secs,
                api_url: environment::choose_url(&config.cube_api_url),
                settings: build_settings(scenario.id, config, host),
                topology: scenario.topology,
            };
            Ok(Run::start(setup, templates::start_endpoint_search(hints)))
        },
        None => Err(replies::answer_not_found(request.id.as_str())),
    }
}

/// The run that a request asks for, or the answer to a request for no example,
/// with status 404. Where the code was edited, the run has a random identifier.
pub fn run_example(request: RunExampleRequest, config: &Config, host: &Host) -> (r: Result<
    Run,
    RunReply,
>)
    ensures
        match r {
            Ok(run) => exists|run_id: Seq<char>|
                (request.code is Some ==> plan::is_run_id(run_id)) && #[trigger] is_run_of(
                    run,
                    request.model(),
                    config.model(),
                    host.model(),
                    run_id,
                ),
            Err(answer) => {
                &&& examples::resolved(registry::registry(), request.id@) is None
                &&& answer.status == 404
                &&& answer.response.model() == replies::not_found_response(request.id@)
            },
        },
{
    let run_id = if request.code.is_some() {
        plan::fresh_run_id()
    } else {
        String::new()
    };
    run_example_as(request, config, host, run_id)
}

/// The examples that are offered.
pub fn list_examples() -> (r: Vec<examples::ExampleMeta>)
    ensures
        examples::metas_model(r@) == examples::visible_metas(
            registry::registry(),
            registry::languages(),
        ),
{
    examples::list_visible()
}

// ------------------------------------------------------------------------ laws

/// The language that a request names changes nothing about its run.
pub proof fn lemma_language_is_not_heard(
    run: Run,
    request: RequestModel,
    language: Option<Seq<char>>,
    config: ConfigModel,
    host: HostModel,
    run_id: Seq<char>,
)
    ensures
        is_run_of(run, request, config, host, run_id) <==> is_run_of(
            run,
            RequestModel { language, ..request },
            config,
            host,
            run_id,
        ),
{
}

/// A script has an API key: the placeholder, or else the one that the server has,
/// which nothing hides.
pub proof fn lemma_a_script_has_a_key(scenario: Seq<char>, config: ConfigModel, host: HostModel)
    ensures
        host.has_api_key ==> !environment::sets(
            settings(scenario, config, host),
            "CUBE_API_KEY"@,
        ),
        !host.has_api_key ==> settings(scenario, config, host).contains(
            ("CUBE_API_KEY"@, "cube_0000000000000000000000000000000000000000"@),
        ),
{
    reveal_strlit("CUBE_API_KEY");
    reveal_strlit("SSL_CERT_FILE");
    reveal_strlit("CUBE_PROXY_NODE_IP");
    reveal_strlit("CUBE_PROXY_PORT_HTTP");
    reveal_strlit("CUBE_SANDBOX_DOMAIN");
    reveal_strlit("E2B_API_URL");
    reveal_strlit("E2B_API_KEY");
    reveal_strlit("CUBE_REMOTE_PROXY_BASE");
    reveal_strlit("CUBE_REMOTE_PROXY_VERIFY_SSL");
    reveal_strlit("CUBE_REMOTE_SANDBOX_DOMAIN");
    assert("CUBE_API_KEY"@.len() == 12);
    assert("SSL_CERT_FILE"@.len() == 13);
    assert("CUBE_PROXY_NODE_IP"@.len() == 18);
    assert("CUBE_PROXY_PORT_HTTP"@.len() == 20);
    assert("CUBE_SANDBOX_DOMAIN"@.len() == 19);
    assert("E2B_API_URL"@.len() == 11);
    assert("E2B_API_KEY"@.len() == 11);
    assert("CUBE_REMOTE_PROXY_BASE"@.len() == 22);
    assert("CUBE_REMOTE_PROXY_VERIFY_SSL"@.len() == 28);
    assert("CUBE_REMOTE_SANDBOX_DOMAIN"@.len() == 26);
    let name = "CUBE_API_KEY"@;
    let a = seq![("SSL_CERT_FILE"@, environment::cert_file(host))];
    let b = placeholder(
        name,
        "cube_0000000000000000000000000000000000000000"@,
        host.has_api_key,
    );
    let c = environment::if_some("CUBE_PROXY_NODE_IP"@, config.cube_proxy_node_ip);
    let d = environment::if_some(
        "CUBE_PROXY_PORT_HTTP"@,
        environment::port_text(config.cube_proxy_port_http),
    );
    let e = seq![("CUBE_SANDBOX_DOMAIN"@, config.sandbox_domain)];
    let f = if scenario == "e2b-dev-sidecar"@ {
        sidecar_settings(config, host)
    } else {
        seq![]
    };
    assert(settings(scenario, config, host) == a + b + c + d + e + f);
    if host.has_api_key {
        let p = seq![("E2B_API_URL"@, environment::configured_url(config.cube_api_url))];
        let q = placeholder(
            "E2B_API_KEY"@,
            "e2b_0000000000000000000000000000000000000000"@,
            host.has_e2b_key,
        );
        let r = seq![("CUBE_REMOTE_PROXY_BASE"@, remote_proxy(config))];
        let s = seq![("CUBE_REMOTE_PROXY_VERIFY_SSL"@, "false"@)];
        let t = seq![("CUBE_REMOTE_SANDBOX_DOMAIN"@, config.sandbox_domain)];
        environment::lemma_sets_none(p, q, name);
        environment::lemma_sets_none(p + q, r, name);
        environment::lemma_sets_none(p + q + r, s, name);
        environment::lemma_sets_none(p + q + r + s, t, name);
        environment::lemma_sets_none(a, b, name);
        environment::lemma_sets_none(a + b, c, name);
        environment::lemma_sets_none(a + b + c, d, name);
        environment::lemma_sets_none(a + b + c + d, e, name);
        environment::lemma_sets_none(a + b + c + d + e, f, name);
    } else {
        let pair = (name, "cube_0000000000000000000000000000000000000000"@);
        assert(b[0] == pair);
        environment::lemma_contains_either(a, b, pair);
        environment::lemma_contains_either(a + b, c, pair);
        environment::lemma_contains_either(a + b + c, d, pair);
        environment::lemma_contains_either(a + b + c + d, e, pair);
        environment::lemma_contains_either(a + b + c + d + e, f, pair);
    }
}

/// The address of the proxy has the port exactly where one is configured that is not
/// the usual one.
pub proof fn lemma_remote_proxy(config: ConfigModel)
    ensures
        ({
            let host = match config.cube_proxy_node_ip {
                Some(ip) => ip,
                None => "127.0.0.1"@,
            };
            match config.cube_proxy_port_http {
                Some(port) => if port == 443 {
                    remote_proxy(config) == "https://"@ + host
                } else {
                    remote_proxy(config) == "https://"@ + host + ":"@ + text::decimal(port as nat)
                },
                None => remote_proxy(config) == "https://"@ + host,
            }
        }),
{
    let host = match config.cube_proxy_node_ip {
        Some(ip) => ip,
        None => "127.0.0.1"@,
    };
    assert("https://"@ + host + seq![] =~= "https://"@ + host);
    if let Some(port) = config.cube_proxy_port_http {
        assert("https://"@ + host + (":"@ + text::decimal(port as nat)) =~= "https://"@ + host
            + ":"@ + text::decimal(port as nat));
    }
}

proof fn lemma_names_differ()
    ensures
        "SSL_CERT_FILE"@ != "CUBE_API_KEY"@,
        "SSL_CERT_FILE"@ != "CUBE_PROXY_NODE_IP"@,
        "SSL_CERT_FILE"@ != "CUBE_PROXY_PORT_HTTP"@,
        "SSL_CERT_FILE"@ != "CUBE_SANDBOX_DOMAIN"@,
        "SSL_CERT_FILE"@ != "E2B_API_URL"@,
        "SSL_CERT_FILE"@ != "E2B_API_KEY"@,
        "SSL_CERT_FILE"@ != "CUBE_REMOTE_PROXY_BASE"@,
        "SSL_CERT_FILE"@ != "CUBE_REMOTE_PROXY_VERIFY_SSL"@,
        "SSL_CERT_FILE"@ != "CUBE_REMOTE_SANDBOX_DOMAIN"@,
        "SSL_CERT_FILE"@ != "CUBE_TEMPLATE_ID"@,
        "SSL_CERT_FILE"@ != "CUBE_API_URL"@,
        "CUBE_API_KEY"@ != "CUBE_PROXY_NODE_IP"@,
        "CUBE_API_KEY"@ != "CUBE_PROXY_PORT_HTTP"@,
        "CUBE_API_KEY"@ != "CUBE_SANDBOX_DOMAIN"@,
        "CUBE_API_KEY"@ != "E2B_API_URL"@,
        "CUBE_API_KEY"@ != "E2B_API_KEY"@,
        "CUBE_API_KEY"@ != "CUBE_REMOTE_PROXY_BASE"@,
        "CUBE_API_KEY"@ != "CUBE_REMOTE_PROXY_VERIFY_SSL"@,
        "CUBE_API_KEY"@ != "CUBE_REMOTE_SANDBOX_DOMAIN"@,
        "CUBE_API_KEY"@ != "CUBE_TEMPLATE_ID"@,
        "CUBE_API_KEY"@ != "CUBE_API_URL"@,
        "CUBE_PROXY_NODE_IP"@ != "CUBE_PROXY_PORT_HTTP"@,
        "CUBE_PROXY_NODE_IP"@ != "CUBE_SANDBOX_DOMAIN"@,
        "CUBE_PROXY_NODE_IP"@ != "E2B_API_URL"@,
        "CUBE_PROXY_NODE_IP"@ != "E2B_API_KEY"@,
        "CUBE_PROXY_NODE_IP"@ != "CUBE_REMOTE_PROXY_BASE"@,
        "CUBE_PROXY_NODE_IP"@ != "CUBE_REMOTE_PROXY_VERIFY_SSL"@,
        "CUBE_PROXY_NODE_IP"@ != "CUBE_REMOTE_SANDBOX_DOMAIN"@,
        "CUBE_PROXY_NODE_IP"@ != "CUBE_TEMPLATE_ID"@,
        "CUBE_PROXY_NODE_IP"@ != "CUBE_API_URL"@,
        "CUBE_PROXY_PORT_HTTP"@ != "CUBE_SANDBOX_DOMAIN"@,
        "CUBE_PROXY_PORT_HTTP"@ != "E2B_API_URL"@,
        "CUBE_PROXY_PORT_HTTP"@ != "E2B_API_KEY"@,
        "CUBE_PROXY_PORT_HTTP"@ != "CUBE_REMOTE_PROXY_BASE"@,
        "CUBE_PROXY_PORT_HTTP"@ != "CUBE_REMOTE_PROXY_VERIFY_SSL"@,
        "CUBE_PROXY_PORT_HTTP"@ != "CUBE_REMOTE_SANDBOX_DOMAIN"@,
        "CUBE_PROXY_PORT_HTTP"@ != "CUBE_TEMPLATE_ID"@,
        "CUBE_PROXY_PORT_HTTP"@ != "CUBE_API_URL"@,
        "CUBE_SANDBOX_DOMAIN"@ != "E2B_API_URL"@,
        "CUBE_SANDBOX_DOMAIN"@ != "E2B_API_KEY"@,
        "CUBE_SANDBOX_DOMAIN"@ != "CUBE_REMOTE_PROXY_BASE"@,
        "CUBE_SANDBOX_DOMAIN"@ != "CUBE_REMOTE_PROXY_VERIFY_SSL"@,
        "CUBE_SANDBOX_DOMAIN"@ != "CUBE_REMOTE_SANDBOX_DOMAIN"@,
        "CUBE_SANDBOX_DOMAIN"@ != "CUBE_TEMPLATE_ID"@,
        "CUBE_SANDBOX_DOMAIN"@ != "CUBE_API_URL"@,
        "E2B_API_URL"@ != "E2B_API_KEY"@,
        "E2B_API_URL"@ != "CUBE_REMOTE_PROXY_BASE"@,
        "E2B_API_URL"@ != "CUBE_REMOTE_PROXY_VERIFY_SSL"@,
        "E2B_API_URL"@ != "CUBE_REMOTE_SANDBOX_DOMAIN"@,
        "E2B_API_URL"@ != "CUBE_TEMPLATE_ID"@,
        "E2B_API_URL"@ != "CUBE_API_URL"@,
        "E2B_API_KEY"@ != "CUBE_REMOTE_PROXY_BASE"@,
        "E2B_API_KEY"@ != "CUBE_REMOTE_PROXY_VERIFY_SSL"@,
        "E2B_API_KEY"@ != "CUBE_REMOTE_SANDBOX_DOMAIN"@,
        "E2B_API_KEY"@ != "CUBE_TEMPLATE_ID"@,
        "E2B_API_KEY"@ != "CUBE_API_URL"@,
        "CUBE_REMOTE_PROXY_BASE"@ != "CUBE_REMOTE_PROXY_VERIFY_SSL"@,
        "CUBE_REMOTE_PROXY_BASE"@ != "CUBE_REMOTE_SANDBOX_DOMAIN"@,
        "CUBE_REMOTE_PROXY_BASE"@ != "CUBE_TEMPLATE_ID"@,
        "CUBE_REMOTE_PROXY_BASE"@ != "CUBE_API_URL"@,
        "CUBE_REMOTE_PROXY_VERIFY_SSL"@ != "CUBE_REMOTE_SANDBOX_DOMAIN"@,
        "CUBE_REMOTE_PROXY_VERIFY_SSL"@ != "CUBE_TEMPLATE_ID"@,
        "CUBE_REMOTE_PROXY_VERIFY_SSL"@ != "CUBE_API_URL"@,
        "CUBE_REMOTE_SANDBOX_DOMAIN"@ != "CUBE_TEMPLATE_ID"@,
        "CUBE_REMOTE_SANDBOX_DOMAIN"@ != "CUBE_API_URL"@,
        "CUBE_TEMPLATE_ID"@ != "CUBE_API_URL"@,
{
    reveal_strlit("SSL_CERT_FILE");
    reveal_strlit("CUBE_API_KEY");
    reveal_strlit("CUBE_PROXY_NODE_IP");
    reveal_strlit("CUBE_PROXY_PORT_HTTP");
    reveal_strlit("CUBE_SANDBOX_DOMAIN");
    reveal_strlit("E2B_API_URL");
    reveal_strlit("E2B_API_KEY");
    reveal_strlit("CUBE_REMOTE_PROXY_BASE");
    reveal_strlit("CUBE_REMOTE_PROXY_VERIFY_SSL");
    reveal_strlit("CUBE_REMOTE_SANDBOX_DOMAIN");
    reveal_strlit("CUBE_TEMPLATE_ID");
    reveal_strlit("CUBE_API_URL");
    assert("SSL_CERT_FILE"@.len() == 13);
    assert("CUBE_API_KEY"@.len() == 12);
    assert("CUBE_PROXY_NODE_IP"@.len() == 18);
    assert("CUBE_PROXY_PORT_HTTP"@.len() == 20);
    assert("CUBE_SANDBOX_DOMAIN"@.len() == 19);
    assert("E2B_API_URL"@.len() == 11);
    assert("E2B_API_KEY"@.len() == 11);
    assert("CUBE_REMOTE_PROXY_BASE"@.len() == 22);
    assert("CUBE_REMOTE_PROXY_VERIFY_SSL"@.len() == 28);
    assert("CUBE_REMOTE_SANDBOX_DOMAIN"@.len() == 26);
    assert("CUBE_TEMPLATE_ID"@.len() == 16);
    assert("CUBE_API_URL"@.len() == 12);
    assert("CUBE_API_KEY"@[9] == 'K' && "CUBE_API_URL"@[9] == 'U');
    assert("E2B_API_URL"@[8] == 'U' && "E2B_API_KEY"@[8] == 'K');
}

proof fn lemma_value_of_placeholder(
    name: Seq<char>,
    key: Seq<char>,
    is_set: bool,
    asked: Seq<char>,
)
    ensures
        environment::value_of(placeholder(name, key, is_set), asked) == (if name == asked
            && !is_set {
            Some(key)
        } else {
            None
        }),
{
    environment::lemma_value_of_one(name, key, asked);
}

proof fn lemma_sidecar_setting(config: ConfigModel, host: HostModel, name: Seq<char>)
    ensures
        environment::value_of(sidecar_settings(config, host), name) == (if name
            == "CUBE_REMOTE_SANDBOX_DOMAIN"@ {
            Some(config.sandbox_domain)
        } else if name == "CUBE_REMOTE_PROXY_VERIFY_SSL"@ {
            Some("false"@)
        } else if name == "CUBE_REMOTE_PROXY_BASE"@ {
            Some(remote_proxy(config))
        } else if name == "E2B_API_KEY"@ {
            if host.has_e2b_key {
                None
            } else {
                Some("e2b_0000000000000000000000000000000000000000"@)
            }
        } else if name == "E2B_API_URL"@ {
            Some(environment::configured_url(config.cube_api_url))
        } else {
            None
        }),
{
    lemma_names_differ();
    let key = "e2b_0000000000000000000000000000000000000000"@;
    let url = environment::configured_url(config.cube_api_url);
    let p = seq![("E2B_API_URL"@, url)];
    let q = placeholder("E2B_API_KEY"@, key, host.has_e2b_key);
    let r = seq![("CUBE_REMOTE_PROXY_BASE"@, remote_proxy(config))];
    let s = seq![("CUBE_REMOTE_PROXY_VERIFY_SSL"@, "false"@)];
    let t = seq![("CUBE_REMOTE_SANDBOX_DOMAIN"@, config.sandbox_domain)];
    assert(sidecar_settings(config, host) == p + q + r + s + t);
    environment::lemma_later_value_counts(p, q, name);
    environment::lemma_later_value_counts(p + q, r, name);
    environment::lemma_later_value_counts(p + q + r, s, name);
    environment::lemma_later_value_counts(p + q + r + s, t, name);
    environment::lemma_value_of_one("E2B_API_URL"@, url, name);
    lemma_value_of_placeholder("E2B_API_KEY"@, key, host.has_e2b_key, name);
    environment::lemma_value_of_one("CUBE_REMOTE_PROXY_BASE"@, remote_proxy(config), name);
    environment::lemma_value_of_one("CUBE_REMOTE_PROXY_VERIFY_SSL"@, "false"@, name);
    environment::lemma_value_of_one(
        "CUBE_REMOTE_SANDBOX_DOMAIN"@,
        config.sandbox_domain,
        name,
    );
}

/// What a script of the public endpoint sees: the certificates that the server trusts,
/// the proxy and the domain as they are configured, and what the development sidecar
/// needs in its scenario and in no other. The template and the address of the API are
/// not touched.
pub proof fn lemma_script_sees_the_configuration(
    scenario: Seq<char>,
    config: ConfigModel,
    host: HostModel,
)
    ensures
        ({
            let env = settings(scenario, config, host);
            let sidecar = scenario == "e2b-dev-sidecar"@;
            &&& environment::value_of(env, "CUBE_TEMPLATE_ID"@) is None
            &&& environment::value_of(env, "CUBE_API_URL"@) is None
            &&& environment::value_of(env, "SSL_CERT_FILE"@) == Some(
                match host.ssl_cert_file {
                    Some(file) => file,
                    None => "/root/.local/share/mkcert/rootCA.pem"@,
                },
            )
            &&& environment::value_of(env, "CUBE_PROXY_NODE_IP"@) == config.cube_proxy_node_ip
            &&& environment::value_of(env, "CUBE_PROXY_PORT_HTTP"@) == (
            match config.cube_proxy_port_http {
                Some(port) => Some(text::decimal(port as nat)),
                None => None,
            })
            &&& environment::value_of(env, "CUBE_SANDBOX_DOMAIN"@) == Some(config.sandbox_domain)
            &&& sidecar ==> {
                &&& environment::value_of(env, "E2B_API_URL"@) == Some(
                    match config.cube_api_url {
                        Some(url) => url,
                        None => "http://127.0.0.1:3000"@,
                    },
                )
                &&& environment::value_of(env, "E2B_API_KEY"@) is Some <==> !host.has_e2b_key
                &&& environment::value_of(env, "CUBE_REMOTE_PROXY_BASE"@) == Some(
                    remote_proxy(config),
                )
                &&& environment::value_of(env, "CUBE_REMOTE_PROXY_VERIFY_SSL"@) == Some("false"@)
                &&& environment::value_of(env, "CUBE_REMOTE_SANDBOX_DOMAIN"@) == Some(
                    config.sandbox_domain,
                )
            }
            &&& !sidecar ==> {
                &&& environment::value_of(env, "E2B_API_URL"@) is None
                &&& environment::value_of(env, "E2B_API_KEY"@) is None
                &&& environment::value_of(env, "CUBE_REMOTE_PROXY_BASE"@) is None
                &&& environment::value_of(env, "CUBE_REMOTE_PROXY_VERIFY_SSL"@) is None
                &&& environment::value_of(env, "CUBE_REMOTE_SANDBOX_DOMAIN"@) is None
            }
        }),
{
    lemma_names_differ();
    lemma_setting(scenario, config, host, "SSL_CERT_FILE"@);
    lemma_setting(scenario, config, host, "CUBE_PROXY_NODE_IP"@);
    lemma_setting(scenario, config, host, "CUBE_PROXY_PORT_HTTP"@);
    lemma_setting(scenario, config, host, "CUBE_SANDBOX_DOMAIN"@);
    lemma_setting(scenario, config, host, "E2B_API_URL"@);
    lemma_setting(scenario, config, host, "E2B_API_KEY"@);
    lemma_setting(scenario, config, host, "CUBE_REMOTE_PROXY_BASE"@);
    lemma_setting(scenario, config, host, "CUBE_REMOTE_PROXY_VERIFY_SSL"@);
    lemma_setting(scenario, config, host, "CUBE_REMOTE_SANDBOX_DOMAIN"@);
    lemma_setting(scenario, config, host, "CUBE_TEMPLATE_ID"@);
    lemma_setting(scenario, config, host, "CUBE_API_URL"@);
}

proof fn lemma_setting(
    scenario: Seq<char>,
    config: ConfigModel,
    host: HostModel,
    name: Seq<char>,
)
    ensures
        environment::value_of(settings(scenario, config, host), name) == ({
            let extra = environment::value_of(sidecar_settings(config, host), name);
            if scenario == "e2b-dev-sidecar"@ && extra is Some {
                extra
            } else if name == "CUBE_SANDBOX_DOMAIN"@ {
                Some(config.sandbox_domain)
            } else if name == "CUBE_PROXY_PORT_HTTP"@ {
                environment::port_text(config.cube_proxy_port_http)
            } else if name == "CUBE_PROXY_NODE_IP"@ {
                config.cube_proxy_node_ip
            } else if name == "CUBE_API_KEY"@ {
                if host.has_api_key {
                    None
                } else {
                    Some("cube_0000000000000000000000000000000000000000"@)
                }
            } else if name == "SSL_CERT_FILE"@ {
                Some(environment::cert_file(host))
            } else {
                None
            }
        }),
        environment::value_of(sidecar_settings(config, host), name) == (if name
            == "CUBE_REMOTE_SANDBOX_DOMAIN"@ {
            Some(config.sandbox_domain)
        } else if name == "CUBE_REMOTE_PROXY_VERIFY_SSL"@ {
            Some("false"@)
        } else if name == "CUBE_REMOTE_PROXY_BASE"@ {
            Some(remote_proxy(config))
        } else if name == "E2B_API_KEY"@ {
            if host.has_e2b_key {
                None
            } else {
                Some("e2b_0000000000000000000000000000000000000000"@)
            }
        } else if name == "E2B_API_URL"@ {
            Some(environment::configured_url(config.cube_api_url))
        } else {
            None
        }),
{
    lemma_names_differ();
    lemma_sidecar_setting(config, host, name);
    let key = "cube_0000000000000000000000000000000000000000"@;
    let port = environment::port_text(config.cube_proxy_port_http);
    let a = seq![("SSL_CERT_FILE"@, environment::cert_file(host))];
    let b = placeholder("CUBE_API_KEY"@, key, host.has_api_key);
    let c = environment::if_some("CUBE_PROXY_NODE_IP"@, config.cube_proxy_node_ip);
    let d = environment::if_some("CUBE_PROXY_PORT_HTTP"@, port);
    let e = seq![("CUBE_SANDBOX_DOMAIN"@, config.sandbox_domain)];
    let f = if scenario == "e2b-dev-sidecar"@ {
        sidecar_settings(config, host)
    } else {
        seq![]
    };
    assert(settings(scenario, config, host) == a + b + c + d + e + f);
    environment::lemma_later_value_counts(a, b, name);
    environment::lemma_later_value_counts(a + b, c, name);
    environment::lemma_later_value_counts(a + b + c, d, name);
    environment::lemma_later_value_counts(a + b + c + d, e, name);
    environment::lemma_later_value_counts(a + b + c + d + e, f, name);
    environment::lemma_value_of_one("SSL_CERT_FILE"@, environment::cert_file(host), name);
    lemma_value_of_placeholder("CUBE_API_KEY"@, key, host.has_api_key, name);
    environment::lemma_value_if_some("CUBE_PROXY_NODE_IP"@, config.cube_proxy_node_ip, name);
    environment::lemma_value_if_some("CUBE_PROXY_PORT_HTTP"@, port, name);
    environment::lemma_value_of_one("CUBE_SANDBOX_DOMAIN"@, config.sandbox_domain, name);
}

/// A run is of the example that the request names, with the code that the request
/// brings and the time that the scenario gives; its script calls the API that is
/// configured, and its graph is that of the scenario.
pub proof fn lemma_run_does_what_was_asked(
    run: Run,
    request: RequestModel,
    config: ConfigModel,
    host: HostModel,
    run_id: Seq<char>,
)
    requires
        is_run_of(run, request, config, host, run_id),
    ensures
        ({
            let setup = run.setup.model();
            &&& examples::resolved(registry::registry(), request.id) matches Some((scenario, file))
            &&& setup.id == request.id
            &&& setup.base_dir == environment::scenario_dir(host, scenario.id@)
            &&& setup.filename == file.filename@
            &&& setup.edited == (match request.code {
                Some(code) => Some((code, run_id)),
                None => None,
            })
            &&& setup.timeout_secs == scenario.timeout_secs
            &&& setup.topology == scenario.topology
            &&& setup.api_url == (match config.cube_api_url {
                Some(url) => url,
                None => "http://127.0.0.1:3000"@,
            })
            &&& environment::value_of(setup.settings, "CUBE_TEMPLATE_ID"@) is None
            &&& environment::value_of(setup.settings, "CUBE_API_URL"@) is None
        }),
{
    let (scenario, file) = examples::resolved(registry::registry(), request.id)->0;
    lemma_script_sees_the_configuration(scenario.id@, config, host);
}

/// A run goes on with the template that is found from what the request names, what is
/// configured, what the environment of the server names and what the scenario wants.
pub proof fn lemma_run_searches_from_all_hints(
    run: Run,
    request: RequestModel,
    config: ConfigModel,
    host: HostModel,
    run_id: Seq<char>,
    world: templates::World,
)
    requires
        is_run_of(run, request, config, host, run_id),
    ensures
        ({
            let (scenario, file) = examples::resolved(registry::registry(), request.id)->0;
            let hints = HintsModel {
                asked: request.template_id,
                configured: config.default_template_id,
                environment: host.template_id,
                store_item: match scenario.store_item_id {
                    Some(item) => Some(item@),
                    None => None,
                },
            };
            exists|n: nat| #[trigger]
                run::after_answers(run.setup.model(), run.state.model(), world, n) == run::chosen(
                    run.setup.model(),
                    templates::outcome(templates::endpoint_search(hints), world),
                )
        }),
{
    let (scenario, file) = examples::resolved(registry::registry(), request.id)->0;
    let search = templates::endpoint_search(hints_of(request, scenario, config, host));
    run::lemma_run_takes_the_template(run.setup.model(), search, world);
}

/// A valid template that the request names is the one that the process of its run sees.
pub proof fn lemma_process_sees_the_template_asked_for(
    run: Run,
    request: RequestModel,
    config: ConfigModel,
    host: HostModel,
    run_id: Seq<char>,
    world: templates::World,
    id: Seq<char>,
)
    requires
        is_run_of(run, request, config, host, run_id),
        request.template_id == Some(id),
        !text::is_blank(id),
        (world.valid)(id),
    ensures
        exists|n: nat| #[trigger]
            run::after_answers(run.setup.model(), run.state.model(), world, n) == run::chosen(
                run.setup.model(),
                Some(id),
            ),
        environment::value_of(run::environment(run.setup.model(), id), "CUBE_TEMPLATE_ID"@) == Some(
            id,
        ),
{
    let (scenario, file) = examples::resolved(registry::registry(), request.id)->0;
    let hints = hints_of(request, scenario, config, host);
    templates::lemma_asked_template_comes_first(hints, true, world, id);
    lemma_run_searches_from_all_hints(run, request, config, host, run_id, world);
    lemma_run_does_what_was_asked(run, request, config, host, run_id);
    run::lemma_process_sees_its_settings(run.setup.model(), id, "CUBE_TEMPLATE_ID"@);
}

/// A request is run exactly where its identifier means an example; else it is answered
/// with 404. What is run is what was asked for.
pub proof fn lemma_known_example_is_run(
    request: RunExampleRequest,
    config: &Config,
    host: &Host,
    run_id: String,
    started: Result<Run, RunReply>,
)
    requires
        call_ensures(run_example_as, (request, config, host, run_id), started),
    ensures
        started is Ok <==> examples::resolved(registry::registry(), request.id@) is Some,
        started matches Ok(run) ==> run.setup.id@ == request.id@ && (run.setup.edited is Some
            <==> request.code is Some),
        started matches Ok(run) ==> is_run_of(
            run,
            request.model(),
            config.model(),
            host.model(),
            run_id@,
        ),
        started matches Err(answer) ==> answer.status == 404 && answer.response.stderr@
            == "Example '"@ + request.id@ + "' not found"@,
{
    if let Ok(run) = started {
        lemma_run_does_what_was_asked(
            run,
            request.model(),
            config.model(),
            host.model(),
            run_id@,
        );
        assert(run.setup.model().id == run.setup.id@);
    }
    if let Err(answer) = started {
        assert(answer.response.model().stderr == answer.response.stderr@);
    }
}

/// A request with edited code is run under an identifier that is made for it.
pub proof fn lemma_edited_code_has_a_run_of_its_own(
    request: RunExampleRequest,
    config: &Config,
    host: &Host,
    started: Result<Run, RunReply>,
)
    requires
        call_ensures(run_example, (request, config, host), started),
    ensures
        started is Ok <==> examples::resolved(registry::registry(), request.id@) is Some,
        started matches Ok(run) ==> {
            &&& run.setup.id@ == request.id@
            &&& request.code is None ==> run.setup.model().edited is None
            &&& request.code matches Some(code) ==> (run.setup.model().edited matches Some(
                (written, run_id),
            ) && written == code@ && plan::is_run_id(run_id))
        },
        started matches Err(answer) ==> answer.status == 404,
{
    if let Ok(run) = started {
        let run_id = choose|run_id: Seq<char>|
            (request.code is Some ==> plan::is_run_id(run_id)) && #[trigger] is_run_of(
                run,
                request.model(),
                config.model(),
                host.model(),
                run_id,
            );
        lemma_run_does_what_was_asked(run, request.model(), config.model(), host.model(), run_id);
        assert(run.setup.model().id == run.setup.id@);
    }
}

/// The public endpoint lists the same examples as the example service.
pub proof fn lemma_lists_agree(
    service: &service::ExampleService,
    here: Vec<examples::ExampleMeta>,
    there: Vec<examples::ExampleMeta>,
)
    requires
        call_ensures(list_examples, (), here),
        call_ensures(service::ExampleService::list_visible, (service,), there),
    ensures
        examples::metas_model(here@) == examples::metas_model(there@),
        here@.len() == examples::listed_before(
            registry::registry(),
            registry::registry().len() as int,
        ),
{
    examples::lemma_list_is_in_order(registry::registry(), registry::languages(), 0, 0);
    assert(examples::metas_model(here@).len() == here@.len());
}

} // verus!
