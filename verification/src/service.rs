//! The example service: the listing, the sources and the runs of examples, with the
//! configuration that it was made with.

use vstd::prelude::*;
use vstd::string::StringExecFns;

use crate::environment;
use crate::environment::{Host, HostModel};
use crate::error::{AppError, ErrorModel};
use crate::examples;
use crate::examples::{ExampleMeta, RequestModel, RunExampleRequest};
use crate::plan;
use crate::registry;
use crate::registry::{FileSpec, ScenarioModel, ScenarioSpec};
use crate::replies;
use crate::run;
use crate::run::{Run, Setup, SetupModel};
use crate::sources;
use crate::sources::SourceFile;
use crate::templates;
use crate::templates::{Hints, HintsModel, Search};
use crate::text;

verus! {

/// What is needed to find templates and to run scripts.
#[derive(Clone)]
pub struct ExampleService {
    /// The address of the API that the scripts call.
    cube_api_url: Option<String>,
    /// The configured default template.
    default_template_id: Option<String>,
    /// The proxy node for the scripts.
    cube_proxy_node_ip: Option<String>,
    /// The HTTP port of the proxy.
    cube_proxy_port_http: Option<u16>,
    /// The domain of the sandboxes.
    sandbox_domain: String,
    /// The address under which `envd` and Jupyter are reached.
    sandbox_proxy_url: String,
    /// The authorization header for calls to `envd`.
    envd_auth: String,
    /// The API key of scripts, where the server has none in its environment.
    default_api_key: Option<String>,
}

/// What an [`ExampleService`] holds.
pub struct ServiceModel {
    pub cube_api_url: Option<Seq<char>>,
    pub default_template_id: Option<Seq<char>>,
    pub cube_proxy_node_ip: Option<Seq<char>>,
    pub cube_proxy_port_http: Option<u16>,
    pub sandbox_domain: Seq<char>,
    pub sandbox_proxy_url: Seq<char>,
    pub envd_auth: Seq<char>,
    pub default_api_key: Option<Seq<char>>,
}

// ------------------------------------------------------------------------ runs

/// The address of the API that a script calls: the one in the request, where it is
/// not blank, else the configured one.
pub open spec fn api_url(request: RequestModel, service: ServiceModel) -> Seq<char> {
    match request.api_url {
        Some(url) => if text::is_blank(url) {
            environment::configured_url(service.cube_api_url)
        } else {
            url
        },
        None => environment::configured_url(service.cube_api_url),
    }
}

/// The proxy node of a script: the one in the request, else the configured one.
pub open spec fn proxy_ip(request: RequestModel, service: ServiceModel) -> Option<Seq<char>> {
    match request.proxy_node_ip {
        Some(ip) => Some(ip),
        None => service.cube_proxy_node_ip,
    }
}

/// The API key that a script is given: the fallback, where the server has none that
/// the script would see.
pub open spec fn fallback_key(service: ServiceModel, host: HostModel) -> Option<Seq<char>> {
    if host.has_api_key {
        None
    } else {
        service.default_api_key
    }
}

/// What the environment of a script holds besides the address of the API and the
/// template.
pub open spec fn settings(request: RequestModel, service: ServiceModel, host: HostModel) -> Seq<
    (Seq<char>, Seq<char>),
> {
    seq![("SSL_CERT_FILE"@, environment::cert_file(host))] + seq![
        ("AGENTHUB_SANDBOX_PROXY_URL"@, service.sandbox_proxy_url),
    ] + seq![("CUBE_API_ENVD_AUTH"@, service.envd_auth)] + environment::if_some(
        "CUBE_API_KEY"@,
        fallback_key(service, host),
    ) + environment::if_some("CUBE_PROXY_NODE_IP"@, proxy_ip(request, service))
        + environment::if_some(
        "CUBE_PROXY_PORT_HTTP"@,
        environment::port_text(service.cube_proxy_port_http),
    ) + seq![("CUBE_SANDBOX_DOMAIN"@, service.sandbox_domain)]
}

/// Where the search for a template starts from.
pub open spec fn hints_of(
    request: RequestModel,
    scenario: ScenarioModel,
    service: ServiceModel,
    host: HostModel,
) -> HintsModel {
    HintsModel {
        asked: request.template_id,
        configured: service.default_template_id,
        environment: host.template_id,
        store_item: match scenario.store_item_id {
            Some(item) => Some(item@),
            None => None,
        },
    }
}

/// What a run goes by. The identifier of the run matters where the code was edited.
pub open spec fn setup_of(
    request: RequestModel,
    scenario: ScenarioModel,
    file: FileSpec,
    service: ServiceModel,
    host: HostModel,
    run_id: Seq<char>,
) -> SetupModel {
    SetupModel {
        id: request.id,
        base_dir: environment::scenario_dir(host, scenario.id@),
        filename: file.filename@,
        edited: match request.code {
            Some(code) => Some((code, run_id)),
            None => None,
        },
        timeout_secs: scenario.timeout_secs,
        api_url: api_url(request, service),
        settings: settings(request, service, host),
        topology: scenario.topology,
    }
}

/// Whether a run is the one that a request asks for: of the example that its
/// identifier means, at the start of the search for a template.
pub open spec fn is_run_of(
    run: Run,
    request: RequestModel,
    service: ServiceModel,
    host: HostModel,
    has_store: bool,
    run_id: Seq<char>,
) -> bool {
    examples::resolved(registry::registry(), request.id) matches Some((scenario, file)) && {
        &&& run.setup.model() == setup_of(request, scenario, file, service, host, run_id)
        &&& run.state.model() == run::searching(
            run.setup.model(),
            templates::service_search(hints_of(request, scenario, service, host), has_store),
        )
    }
}

impl ExampleService {
    pub closed spec fn model(self) -> ServiceModel {
        ServiceModel {
            cube_api_url: text::opt_text(self.cube_api_url),
            default_template_id: text::opt_text(self.default_template_id),
            cube_proxy_node_ip: text::opt_text(self.cube_proxy_node_ip),
            cube_proxy_port_http: self.cube_proxy_port_http,
            sandbox_domain: self.sandbox_domain@,
            sandbox_proxy_url: self.sandbox_proxy_url@,
            envd_auth: self.envd_auth@,
            default_api_key: text::opt_text(self.default_api_key),
        }
    }

    /// A service with that configuration.
    pub fn new(
        cube_api_url: Option<String>,
        default_template_id: Option<String>,
        cube_proxy_node_ip: Option<String>,
        cube_proxy_port_http: Option<u16>,
        sandbox_domain: String,
        sandbox_proxy_url: String,
        envd_auth: String,
        default_api_key: Option<String>,
    ) -> (r: Self)
        ensures
            r.model() == (ServiceModel {
                cube_api_url: text::opt_text(cube_api_url),
                default_template_id: text::opt_text(default_template_id),
                cube_proxy_node_ip: text::opt_text(cube_proxy_node_ip),
                cube_proxy_port_http,
                sandbox_domain: sandbox_domain@,
                sandbox_proxy_url: sandbox_proxy_url@,
                envd_auth: envd_auth@,
                default_api_key: text::opt_text(default_api_key),
            }),
    {
        ExampleService {
            cube_api_url,
            default_template_id,
            cube_proxy_node_ip,
            cube_proxy_port_http,
            sandbox_domain,
            sandbox_proxy_url,
            envd_auth,
            default_api_key,
        }
    }

    /// The examples that are offered, without those of hidden scenarios.
    pub fn list_visible(&self) -> (r: Vec<ExampleMeta>)
        ensures
            examples::metas_model(r@) == examples::visible_metas(
                registry::registry(),
                registry::languages(),
            ),
    {
        examples::list_visible()
    }

    /// The example that an identifier means, with its scenario and its file.
    pub fn resolve_visible(&self, id: &str) -> (r: Option<(ExampleMeta, ScenarioSpec, FileSpec)>)
        ensures
            match r {
                Some((meta, scenario, file)) => {
                    &&& examples::resolved(registry::registry(), id@) == Some(
                        (scenario.model(), file),
                    )
                    &&& meta.model() == examples::meta_of(
                        scenario.model(),
                        file,
                        registry::languages(),
                    )
                },
                None => examples::resolved(registry::registry(), id@) is None,
            },
    {
        examples::resolve_visible(id)
    }

    /// The file to be read for these identifiers, or the error where they mean no
    /// example.
    pub fn get_source(&self, scenario: &str, file: &str, host: &Host) -> (r: Result<
        SourceFile,
        AppError,
    >)
        ensures
            match r {
                Ok(source) => sources::is_source_of(source, scenario@, file@, host.model()),
                Err(error) => {
                    &&& sources::example(scenario@, file@) is None
                    &&& error.model() == ErrorModel::NotFound(
                        replies::not_found(examples::full_id(scenario@, file@)),
                    )
                },
            },
    {
        match sources::find_source(scenario, file, host) {
            Ok(source) => Ok(source),
            Err(message) => Err(AppError::NotFound(message)),
        }
    }

    /// The search for the template of a run, at its start.
    pub fn resolve_template_id(
        &self,
        asked: Option<String>,
        scenario: &ScenarioSpec,
        host: &Host,
        has_store: bool,
    ) -> (r: Search)
        ensures
            r.model() == templates::service_search(
                (HintsModel {
                    asked: text::opt_text(asked),
                    configured: self.model().default_template_id,
                    environment: host.model().template_id,
                    store_item: match scenario.model().store_item_id {
                        Some(item) => Some(item@),
                        None => None,
                    },
                }),
                has_store,
            ),
    {
        let hints = Hints {
            asked,
            configured: environment::copy_opt(&self.default_template_id),
            environment: environment::copy_opt(&host.template_id),
            store_item: match scenario.store_item_id {
                Some(item) => Some(String::from_str(item)),
                None => None,
            },
        };
        templates::start_service_search(hints, has_store)
    }

    fn choose_api_url(&self, asked: &Option<String>) -> (r: String)
        ensures
            forall|request: RequestModel|
                request.api_url == text::opt_text(*asked) ==> r@ == #[trigger] api_url(
                    request,
                    self.model(),
                ),
    {
        if let Some(url) = asked {
            if !text::blank(url.as_str()) {
                return url.clone();
            }
        }
        environment::choose_url(&self.cube_api_url)
    }

    fn build_settings(&self, request: &RunExampleRequest, host: &Host) -> (r: Vec<
        (String, String),
    >)
        ensures
            text::pairs(r@) == settings(request.model(), self.model(), host.model()),
    {
        let mut env: Vec<(String, String)> = Vec::new();
        environment::set(&mut env, "SSL_CERT_FILE", environment::choose_cert_file(host));
        assert(text::pairs(env@) =~= seq![
            ("SSL_CERT_FILE"@, environment::cert_file(host.model())),
        ]);
        environment::set(
            &mut env,
            "AGENTHUB_SANDBOX_PROXY_URL",
            self.sandbox_proxy_url.clone(),
        );
        environment::set(&mut env, "CUBE_API_ENVD_AUTH", self.envd_auth.clone());
        let key = if host.has_api_key {
            None
        } else {
            environment::copy_opt(&self.default_api_key)
        };
        environment::set_if_some(&mut env, "CUBE_API_KEY", key);
        let ip = match &request.proxy_node_ip {
            Some(ip) => Some(ip.clone()),
            None => environment::copy_opt(&self.cube_proxy_node_ip),
        };
        environment::set_if_some(&mut env, "CUBE_PROXY_NODE_IP", ip);
        environment::set_if_some(
            &mut env,
            "CUBE_PROXY_PORT_HTTP",
            environment::show_port(self.cube_proxy_port_http),
        );
        environment::set(&mut env, "CUBE_SANDBOX_DOMAIN", self.sandbox_domain.clone());
        env
    }

    /// The run that a request asks for under that identifier, or the error for a
    /// request for no example.
    pub fn run_as(
        &self,
        request: RunExampleRequest,
        host: &Host,
        has_store: bool,
        run_id: String,
    ) -> (r: Result<Run, AppError>)
        ensures
            match r {
                Ok(run) => is_run_of(
                    run,
                    request.model(),
                    self.model(),
                    host.model(),
                    has_store,
                    run_id@,
                ),
                Err(error) => {
                    &&& examples::resolved(registry::registry(), request.id@) is None
                    &&& error.model() == ErrorModel::NotFound(replies::not_found(request.id@))
                },
            },
    {
        match examples::resolve_visible(request.id.as_str()) {
            Some((_, scenario, file)) => {
                let api_url = self.choose_api_url(&request.api_url);
                let settings = self.build_settings(&request, host);
                assert(api_url@ == self::api_url(request.model(), self.model()));
                let search = self.resolve_template_id(
                    request.template_id,
                    &scenario,
                    host,
                    has_store,
                );
                let setup = Setup {
                    id: request.id,
                    base_dir: environment::dir_of_scenario(host, scenario.id),
                    filename: String::from_str(file.filename),
                    edited: match request.code {
                        Some(code) => Some((code, run_id)),
                        None => None,
                    },
                    timeout_secs: scenario.timeout_secs,
                    api_url,
                    settings,
                    topology: scenario.topology,
                };
                Ok(Run::start(setup, search))
            },
            None => Err(AppError::NotFound(replies::not_found_message(request.id.as_str()))),
        }
    }

    /// The run that a request asks for, or the error for a request for no example.
    /// Where the code was edited, the run has a random identifier.
    pub fn run(&self, request: RunExampleRequest, host: &Host, has_store: bool) -> (r: Result<
        Run,
        AppError,
    >)
        ensures
            match r {
                Ok(run) => exists|run_id: Seq<char>|
                    (request.code is Some ==> plan::is_run_id(run_id)) && #[trigger] is_run_of(
                        run,
                        request.model(),
                        self.model(),
                        host.model(),
                        has_store,
                        run_id,
                    ),
                Err(error) => {
                    &&& examples::resolved(registry::registry(), request.id@) is None
                    &&& error.model() == ErrorModel::NotFound(replies::not_found(request.id@))
                },
            },
    {
        let run_id = if request.code.is_some() {
            plan::fresh_run_id()
        } else {
            String::new()
        };
        self.run_as(request, host, has_store, run_id)
    }
}

// ------------------------------------------------------------------------ laws

/// The language that a request names changes nothing about its run.
pub proof fn lemma_language_is_not_heard(
    run: Run,
    request: RequestModel,
    language: Option<Seq<char>>,
    service: ServiceModel,
    host: HostModel,
    has_store: bool,
    run_id: Seq<char>,
)
    ensures
        is_run_of(run, request, service, host, has_store, run_id) <==> is_run_of(
            run,
            RequestModel { language, ..request },
            service,
            host,
            has_store,
            run_id,
        ),
{
}

/// A script is given the fallback key where the server has no key that the script
/// would see, and no other key in any case.
pub proof fn lemma_fallback_key_never_hides_a_key(
    request: RequestModel,
    service: ServiceModel,
    host: HostModel,
)
    ensures
        environment::sets(settings(request, service, host), "CUBE_API_KEY"@) <==> !host.has_api_key
            && service.default_api_key is Some,
        !host.has_api_key && service.default_api_key is Some ==> settings(
            request,
            service,
            host,
        ).contains(("CUBE_API_KEY"@, service.default_api_key->0)),
{
    reveal_strlit("CUBE_API_KEY");
    reveal_strlit("SSL_CERT_FILE");
    reveal_strlit("AGENTHUB_SANDBOX_PROXY_URL");
    reveal_strlit("CUBE_API_ENVD_AUTH");
    reveal_strlit("CUBE_PROXY_NODE_IP");
    reveal_strlit("CUBE_PROXY_PORT_HTTP");
    reveal_strlit("CUBE_SANDBOX_DOMAIN");
    assert("CUBE_API_KEY"@.len() == 12);
    assert("SSL_CERT_FILE"@.len() == 13);
    assert("AGENTHUB_SANDBOX_PROXY_URL"@.len() == 26);
    assert("CUBE_API_ENVD_AUTH"@.len() == 18);
    assert("CUBE_PROXY_NODE_IP"@.len() == 18);
    assert("CUBE_PROXY_PORT_HTTP"@.len() == 20);
    assert("CUBE_SANDBOX_DOMAIN"@.len() == 19);
    let name = "CUBE_API_KEY"@;
    let a = seq![("SSL_CERT_FILE"@, environment::cert_file(host))];
    let b = seq![("AGENTHUB_SANDBOX_PROXY_URL"@, service.sandbox_proxy_url)];
    let c = seq![("CUBE_API_ENVD_AUTH"@, service.envd_auth)];
    let d = environment::if_some(name, fallback_key(service, host));
    let e = environment::if_some("CUBE_PROXY_NODE_IP"@, proxy_ip(request, service));
    let f = environment::if_some(
        "CUBE_PROXY_PORT_HTTP"@,
        environment::port_text(service.cube_proxy_port_http),
    );
    let g = seq![("CUBE_SANDBOX_DOMAIN"@, service.sandbox_domain)];
    assert(settings(request, service, host) == a + b + c + d + e + f + g);
    if let Some(key) = fallback_key(service, host) {
        let pair = (name, key);
        assert(d[0] == pair);
        environment::lemma_contains_either(a + b + c, d, pair);
        environment::lemma_contains_either(a + b + c + d, e, pair);
        environment::lemma_contains_either(a + b + c + d + e, f, pair);
        environment::lemma_contains_either(a + b + c + d + e + f, g, pair);
    } else {
        environment::lemma_sets_none(a, b, name);
        environment::lemma_sets_none(a + b, c, name);
        environment::lemma_sets_none(a + b + c, d, name);
        environment::lemma_sets_none(a + b + c + d, e, name);
        environment::lemma_sets_none(a + b + c + d + e, f, name);
        environment::lemma_sets_none(a + b + c + d + e + f, g, name);
    }
}

proof fn lemma_names_differ()
    ensures
        "SSL_CERT_FILE"@ != "AGENTHUB_SANDBOX_PROXY_URL"@,
        "SSL_CERT_FILE"@ != "CUBE_API_ENVD_AUTH"@,
        "SSL_CERT_FILE"@ != "CUBE_API_KEY"@,
        "SSL_CERT_FILE"@ != "CUBE_PROXY_NODE_IP"@,
        "SSL_CERT_FILE"@ != "CUBE_PROXY_PORT_HTTP"@,
        "SSL_CERT_FILE"@ != "CUBE_SANDBOX_DOMAIN"@,
        "SSL_CERT_FILE"@ != "CUBE_TEMPLATE_ID"@,
        "SSL_CERT_FILE"@ != "CUBE_API_URL"@,
        "AGENTHUB_SANDBOX_PROXY_URL"@ != "CUBE_API_ENVD_AUTH"@,
        "AGENTHUB_SANDBOX_PROXY_URL"@ != "CUBE_API_KEY"@,
        "AGENTHUB_SANDBOX_PROXY_URL"@ != "CUBE_PROXY_NODE_IP"@,
        "AGENTHUB_SANDBOX_PROXY_URL"@ != "CUBE_PROXY_PORT_HTTP"@,
        "AGENTHUB_SANDBOX_PROXY_URL"@ != "CUBE_SANDBOX_DOMAIN"@,
        "AGENTHUB_SANDBOX_PROXY_URL"@ != "CUBE_TEMPLATE_ID"@,
        "AGENTHUB_SANDBOX_PROXY_URL"@ != "CUBE_API_URL"@,
        "CUBE_API_ENVD_AUTH"@ != "CUBE_API_KEY"@,
        "CUBE_API_ENVD_AUTH"@ != "CUBE_PROXY_NODE_IP"@,
        "CUBE_API_ENVD_AUTH"@ != "CUBE_PROXY_PORT_HTTP"@,
        "CUBE_API_ENVD_AUTH"@ != "CUBE_SANDBOX_DOMAIN"@,
        "CUBE_API_ENVD_AUTH"@ != "CUBE_TEMPLATE_ID"@,
        "CUBE_API_ENVD_AUTH"@ != "CUBE_API_URL"@,
        "CUBE_API_KEY"@ != "CUBE_PROXY_NODE_IP"@,
        "CUBE_API_KEY"@ != "CUBE_PROXY_PORT_HTTP"@,
        "CUBE_API_KEY"@ != "CUBE_SANDBOX_DOMAIN"@,
        "CUBE_API_KEY"@ != "CUBE_TEMPLATE_ID"@,
        "CUBE_API_KEY"@ != "CUBE_API_URL"@,
        "CUBE_PROXY_NODE_IP"@ != "CUBE_PROXY_PORT_HTTP"@,
        "CUBE_PROXY_NODE_IP"@ != "CUBE_SANDBOX_DOMAIN"@,
        "CUBE_PROXY_NODE_IP"@ != "CUBE_TEMPLATE_ID"@,
        "CUBE_PROXY_NODE_IP"@ != "CUBE_API_URL"@,
        "CUBE_PROXY_PORT_HTTP"@ != "CUBE_SANDBOX_DOMAIN"@,
        "CUBE_PROXY_PORT_HTTP"@ != "CUBE_TEMPLATE_ID"@,
        "CUBE_PROXY_PORT_HTTP"@ != "CUBE_API_URL"@,
        "CUBE_SANDBOX_DOMAIN"@ != "CUBE_TEMPLATE_ID"@,
        "CUBE_SANDBOX_DOMAIN"@ != "CUBE_API_URL"@,
        "CUBE_TEMPLATE_ID"@ != "CUBE_API_URL"@,
{
    reveal_strlit("SSL_CERT_FILE");
    reveal_strlit("AGENTHUB_SANDBOX_PROXY_URL");
    reveal_strlit("CUBE_API_ENVD_AUTH");
    reveal_strlit("CUBE_API_KEY");
    reveal_strlit("CUBE_PROXY_NODE_IP");
    reveal_strlit("CUBE_PROXY_PORT_HTTP");
    reveal_strlit("CUBE_SANDBOX_DOMAIN");
    reveal_strlit("CUBE_TEMPLATE_ID");
    reveal_strlit("CUBE_API_URL");
    assert("SSL_CERT_FILE"@.len() == 13);
    assert("AGENTHUB_SANDBOX_PROXY_URL"@.len() == 26);
    assert("CUBE_API_ENVD_AUTH"@.len() == 18);
    assert("CUBE_API_KEY"@.len() == 12);
    assert("CUBE_PROXY_NODE_IP"@.len() == 18);
    assert("CUBE_PROXY_PORT_HTTP"@.len() == 20);
    assert("CUBE_SANDBOX_DOMAIN"@.len() == 19);
    assert("CUBE_TEMPLATE_ID"@.len() == 16);
    assert("CUBE_API_URL"@.len() == 12);
    assert("CUBE_API_ENVD_AUTH"@[5] == 'A' && "CUBE_PROXY_NODE_IP"@[5] == 'P');
    assert("CUBE_API_KEY"@[9] == 'K' && "CUBE_API_URL"@[9] == 'U');
}

proof fn lemma_setting(
    request: RequestModel,
    service: ServiceModel,
    host: HostModel,
    name: Seq<char>,
)
    ensures
        environment::value_of(settings(request, service, host), name) == (if name
            == "CUBE_SANDBOX_DOMAIN"@ {
            Some(service.sandbox_domain)
        } else if name == "CUBE_PROXY_PORT_HTTP"@ {
            environment::port_text(service.cube_proxy_port_http)
        } else if name == "CUBE_PROXY_NODE_IP"@ {
            proxy_ip(request, service)
        } else if name == "CUBE_API_KEY"@ {
            fallback_key(service, host)
        } else if name == "CUBE_API_ENVD_AUTH"@ {
            Some(service.envd_auth)
        } else if name == "AGENTHUB_SANDBOX_PROXY_URL"@ {
            Some(service.sandbox_proxy_url)
        } else if name == "SSL_CERT_FILE"@ {
            Some(environment::cert_file(host))
        } else {
            None
        }),
{
    lemma_names_differ();
    let port = environment::port_text(service.cube_proxy_port_http);
    let a = seq![("SSL_CERT_FILE"@, environment::cert_file(host))];
    let b = seq![("AGENTHUB_SANDBOX_PROXY_URL"@, service.sandbox_proxy_url)];
    let c = seq![("CUBE_API_ENVD_AUTH"@, service.envd_auth)];
    let d = environment::if_some("CUBE_API_KEY"@, fallback_key(service, host));
    let e = environment::if_some("CUBE_PROXY_NODE_IP"@, proxy_ip(request, service));
    let f = environment::if_some("CUBE_PROXY_PORT_HTTP"@, port);
    let g = seq![("CUBE_SANDBOX_DOMAIN"@, service.sandbox_domain)];
    assert(settings(request, service, host) == a + b + c + d + e + f + g);
    environment::lemma_later_value_counts(a, b, name);
    environment::lemma_later_value_counts(a + b, c, name);
    environment::lemma_later_value_counts(a + b + c, d, name);
    environment::lemma_later_value_counts(a + b + c + d, e, name);
    environment::lemma_later_value_counts(a + b + c + d + e, f, name);
    environment::lemma_later_value_counts(a + b + c + d + e + f, g, name);
    environment::lemma_value_of_one("SSL_CERT_FILE"@, environment::cert_file(host), name);
    environment::lemma_value_of_one(
        "AGENTHUB_SANDBOX_PROXY_URL"@,
        service.sandbox_proxy_url,
        name,
    );
    environment::lemma_value_of_one("CUBE_API_ENVD_AUTH"@, service.envd_auth, name);
    environment::lemma_value_if_some("CUBE_API_KEY"@, fallback_key(service, host), name);
    environment::lemma_value_if_some("CUBE_PROXY_NODE_IP"@, proxy_ip(request, service), name);
    environment::lemma_value_if_some("CUBE_PROXY_PORT_HTTP"@, port, name);
    environment::lemma_value_of_one("CUBE_SANDBOX_DOMAIN"@, service.sandbox_domain, name);
}

/// What a script of the example service sees: the certificates that the server trusts,
/// the proxy node of the request or else the configured one, and the rest as the
/// service is configured. The template and the address of the API are not touched.
pub proof fn lemma_script_sees_the_configuration(
    request: RequestModel,
    service: ServiceModel,
    host: HostModel,
)
    ensures
        ({
            let env = settings(request, service, host);
            &&& environment::value_of(env, "CUBE_TEMPLATE_ID"@) is None
            &&& environment::value_of(env, "CUBE_API_URL"@) is None
            &&& environment::value_of(env, "SSL_CERT_FILE"@) == Some(
                match host.ssl_cert_file {
                    Some(file) => file,
                    None => "/root/.local/share/mkcert/rootCA.pem"@,
                },
            )
            &&& environment::value_of(env, "AGENTHUB_SANDBOX_PROXY_URL"@) == Some(
                service.sandbox_proxy_url,
            )
            &&& environment::value_of(env, "CUBE_API_ENVD_AUTH"@) == Some(service.envd_auth)
            &&& environment::value_of(env, "CUBE_PROXY_NODE_IP"@) == (match request.proxy_node_ip {
                Some(ip) => Some(ip),
                None => service.cube_proxy_node_ip,
            })
            &&& environment::value_of(env, "CUBE_PROXY_PORT_HTTP"@) == (
            match service.cube_proxy_port_http {
                Some(port) => Some(text::decimal(port as nat)),
                None => None,
            })
            &&& environment::value_of(env, "CUBE_SANDBOX_DOMAIN"@) == Some(service.sandbox_domain)
        }),
{
    lemma_names_differ();
    lemma_setting(request, service, host, "SSL_CERT_FILE"@);
    lemma_setting(request, service, host, "AGENTHUB_SANDBOX_PROXY_URL"@);
    lemma_setting(request, service, host, "CUBE_API_ENVD_AUTH"@);
    lemma_setting(request, service, host, "CUBE_PROXY_NODE_IP"@);
    lemma_setting(request, service, host, "CUBE_PROXY_PORT_HTTP"@);
    lemma_setting(request, service, host, "CUBE_SANDBOX_DOMAIN"@);
    lemma_setting(request, service, host, "CUBE_TEMPLATE_ID"@);
    lemma_setting(request, service, host, "CUBE_API_URL"@);
}

/// A run is of the example that the request names, with the code that the request
/// brings and the time that the scenario gives. Its script calls the API that the
/// request names, unless that is blank; then the configured one.
pub proof fn lemma_run_does_what_was_asked(
    run: Run,
    request: RequestModel,
    service: ServiceModel,
    host: HostModel,
    has_store: bool,
    run_id: Seq<char>,
)
    requires
        is_run_of(run, request, service, host, has_store, run_id),
    ensures
        ({
            let setup = run.setup.model();
            &&& examples::resolved(registry::registry(), request.id) matches Some((scenario, file))
            &&& setup.id == request.id
            &&& setup.base_dir == environment::scenario_dir(host, scenario.id@)
            &&& setup.filename == file.filename@
            &&& setup.edited == (match request.code {
                Some(code) => Some((code, run_id)),
                None => None,
            })
            &&& setup.timeout_secs == scenario.timeout_secs
            &&& setup.topology == scenario.topology
            &&& request.api_url matches Some(url) ==> (!text::is_blank(url) ==> setup.api_url
                == url)
            &&& (request.api_url matches Some(url) ==> text::is_blank(url)) ==> setup.api_url == (
            match service.cube_api_url {
                Some(url) => url,
                None => "http://127.0.0.1:3000"@,
            })
            &&& environment::value_of(setup.settings, "CUBE_TEMPLATE_ID"@) is None
            &&& environment::value_of(setup.settings, "CUBE_API_URL"@) is None
        }),
{
    lemma_script_sees_the_configuration(request, service, host);
}

/// A run goes on with the template that is found from what the request names, what is
/// configured, what the environment of the server names and what the scenario wants.
pub proof fn lemma_run_searches_from_all_hints(
    run: Run,
    request: RequestModel,
    service: ServiceModel,
    host: HostModel,
    has_store: bool,
    run_id: Seq<char>,
    world: templates::World,
)
    requires
        is_run_of(run, request, service, host, has_store, run_id),
    ensures
        ({
            let (scenario, file) = examples::resolved(registry::registry(), request.id)->0;
            let hints = HintsModel {
                asked: request.template_id,
                configured: service.default_template_id,
                environment: host.template_id,
                store_item: match scenario.store_item_id {
                    Some(item) => Some(item@),
                    None => None,
                },
            };
            exists|n: nat| #[trigger]
                run::after_answers(run.setup.model(), run.state.model(), world, n) == run::chosen(
                    run.setup.model(),
                    templates::outcome(templates::service_search(hints, has_store), world),
                )
        }),
{
    let (scenario, file) = examples::resolved(registry::registry(), request.id)->0;
    let search = templates::service_search(hints_of(request, scenario, service, host), has_store);
    run::lemma_run_takes_the_template(run.setup.model(), search, world);
}

/// A request is run exactly where its identifier means an example; else the error names
/// it. What is run is what was asked for.
pub proof fn lemma_known_example_is_run(
    service: &ExampleService,
    request: RunExampleRequest,
    host: &Host,
    has_store: bool,
    run_id: String,
    started: Result<Run, AppError>,
)
    requires
        call_ensures(ExampleService::run_as, (service, request, host, has_store, run_id), started),
    ensures
        started is Ok <==> examples::resolved(registry::registry(), request.id@) is Some,
        started matches Ok(run) ==> run.setup.id@ == request.id@ && (run.setup.edited is Some
            <==> request.code is Some) && is_run_of(
            run,
            request.model(),
            service.model(),
            host.model(),
            has_store,
            run_id@,
        ),
        started matches Err(error) ==> error.model() == ErrorModel::NotFound(
            "Example '"@ + request.id@ + "' not found"@,
        ),
{
    if let Ok(run) = started {
        lemma_run_does_what_was_asked(
            run,
            request.model(),
            service.model(),
            host.model(),
            has_store,
            run_id@,
        );
        assert(run.setup.model().id == run.setup.id@);
    }
}

/// A request with edited code is run under an identifier that is made for it.
pub proof fn lemma_edited_code_has_a_run_of_its_own(
    service: &ExampleService,
    request: RunExampleRequest,
    host: &Host,
    has_store: bool,
    started: Result<Run, AppError>,
)
    requires
        call_ensures(ExampleService::run, (service, request, host, has_store), started),
    ensures
        started is Ok <==> examples::resolved(registry::registry(), request.id@) is Some,
        started matches Ok(run) ==> {
            &&& run.setup.id@ == request.id@
            &&& request.code is None ==> run.setup.model().edited is None
            &&& request.code matches Some(code) ==> (run.setup.model().edited matches Some(
                (written, run_id),
            ) && written == code@ && plan::is_run_id(run_id))
        },
{
    if let Ok(run) = started {
        let run_id = choose|run_id: Seq<char>|
            (request.code is Some ==> plan::is_run_id(run_id)) && #[trigger] is_run_of(
                run,
                request.model(),
                service.model(),
                host.model(),
                has_store,
                run_id,
            );
        lemma_run_does_what_was_asked(
            run,
            request.model(),
            service.model(),
            host.model(),
            has_store,
            run_id,
        );
        assert(run.setup.model().id == run.setup.id@);
    }
}

/// The example service reads the source of the example that the identifiers mean, and
/// where they mean none, the error names them.
pub proof fn lemma_known_source_is_read(
    service: &ExampleService,
    scenario: &str,
    file: &str,
    host: &Host,
    found: Result<SourceFile, AppError>,
)
    requires
        call_ensures(ExampleService::get_source, (service, scenario, file, host), found),
    ensures
        found is Ok <==> examples::resolved(
            registry::registry(),
            scenario@ + ":"@ + file@,
        ) is Some,
        found matches Ok(source) ==> source.meta.id@ == scenario@ + ":"@ + file@
            && sources::is_source_of(source, scenario@, file@, host.model()),
        found matches Err(error) ==> error.model() == ErrorModel::NotFound(
            "Example '"@ + (scenario@ + ":"@ + file@) + "' not found"@,
        ),
{
    if let Ok(source) = found {
        sources::lemma_source_is_what_would_run(source, scenario@, file@, host.model());
    }
}

/// An identifier means the same to the example service as to everyone: the file whose
/// identifier it is.
pub proof fn lemma_identifier_means_its_file(
    service: &ExampleService,
    id: &str,
    found: Option<(ExampleMeta, ScenarioSpec, FileSpec)>,
)
    requires
        call_ensures(ExampleService::resolve_visible, (service, id), found),
    ensures
        found matches Some((meta, scenario, file)) ==> {
            &&& meta.id@ == id@
            &&& id@ == scenario.id@ + ":"@ + file.id@
            &&& !scenario.hidden
            &&& scenario.files@.contains(file)
            &&& meta.filename@ == file.filename@
        },
        found is Some <==> examples::resolved(registry::registry(), id@) is Some,
{
    examples::lemma_resolved_is_listed(registry::registry(), registry::languages(), id@);
    if let Some((meta, scenario, file)) = found {
        assert(meta.model().id == meta.id@);
        assert(scenario.model().files == scenario.files@);
    }
}

/// A service keeps the configuration that it was made with.
pub proof fn lemma_service_keeps_its_configuration(
    url: Option<String>,
    template: Option<String>,
    ip: Option<String>,
    port: Option<u16>,
    domain: String,
    proxy: String,
    auth: String,
    key: Option<String>,
    service: ExampleService,
)
    requires
        call_ensures(ExampleService::new, (url, template, ip, port, domain, proxy, auth, key), service),
    ensures
        service.model().cube_api_url == text::opt_text(url),
        service.model().default_template_id == text::opt_text(template),
        service.model().cube_proxy_node_ip == text::opt_text(ip),
        service.model().cube_proxy_port_http == port,
        service.model().sandbox_domain == domain@,
        service.model().sandbox_proxy_url == proxy@,
        service.model().envd_auth == auth@,
        service.model().default_api_key == text::opt_text(key),
{
}

} // verus!
