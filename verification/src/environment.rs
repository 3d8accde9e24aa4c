//! What the environment of an example holds, whoever runs it.

use vstd::prelude::*;
use vstd::string::StringExecFns;

use crate::paths;
use crate::text;

verus! {

/// What the server finds around itself.
pub struct Host {
    /// The variable `CUBE_TEMPLATE_ID`.
    pub template_id: Option<String>,
    /// The variable `SSL_CERT_FILE`.
    pub ssl_cert_file: Option<String>,
    /// Whether the variable `CUBE_API_KEY` is set.
    pub has_api_key: bool,
    /// Whether the variable `E2B_API_KEY` is set.
    pub has_e2b_key: bool,
    /// The variable `CUBE_EXAMPLES_DIR`.
    pub examples_dir: Option<String>,
    /// The directory that the server was built in.
    pub manifest_dir: String,
}

/// What a [`Host`] holds.
pub struct HostModel {
    pub template_id: Option<Seq<char>>,
    pub ssl_cert_file: Option<Seq<char>>,
    pub has_api_key: bool,
    pub has_e2b_key: bool,
    pub examples_dir: Option<Seq<char>>,
    pub manifest_dir: Seq<char>,
}

impl Host {
    pub open spec fn model(self) -> HostModel {
        HostModel {
            template_id: text::opt_text(self.template_id),
            ssl_cert_file: text::opt_text(self.ssl_cert_file),
            has_api_key: self.has_api_key,
            has_e2b_key: self.has_e2b_key,
            examples_dir: text::opt_text(self.examples_dir),
            manifest_dir: self.manifest_dir@,
        }
    }
}

/// A text that may be absent, once more.
pub(crate) fn copy_opt(s: &Option<String>) -> (r: Option<String>)
    ensures
        text::opt_text(r) == text::opt_text(*s),
{
    match s {
        Some(s) => Some(s.clone()),
        None => None,
    }
}

/// The directory of a scenario.
pub open spec fn scenario_dir(host: HostModel, scenario: Seq<char>) -> Seq<char> {
    paths::joined(paths::root(host.examples_dir, host.manifest_dir), scenario)
}

/// The directory of a scenario.
pub fn dir_of_scenario(host: &Host, scenario: &str) -> (r: String)
    ensures
        r@ == scenario_dir(host.model(), scenario@),
{
    let root = paths::examples_root(copy_opt(&host.examples_dir), host.manifest_dir.as_str());
    paths::path_join(root.as_str(), scenario)
}

/// A variable, where there is a value for it.
pub open spec fn if_some(name: Seq<char>, value: Option<Seq<char>>) -> Seq<
    (Seq<char>, Seq<char>),
> {
    match value {
        Some(value) => seq![(name, value)],
        None => seq![],
    }
}

/// The text of a port.
pub open spec fn port_text(port: Option<u16>) -> Option<Seq<char>> {
    match port {
        Some(port) => Some(text::decimal(port as nat)),
        None => None,
    }
}

/// The text of a port.
pub(crate) fn show_port(port: Option<u16>) -> (r: Option<String>)
    ensures
        text::opt_text(r) == port_text(port),
{
    match port {
        Some(port) => Some(text::show_decimal(port as u64)),
        None => None,
    }
}

/// The file with the certificates that a script trusts.
pub open spec fn cert_file(host: HostModel) -> Seq<char> {
    match host.ssl_cert_file {
        Some(file) => file,
        None => "/root/.local/share/mkcert/rootCA.pem"@,
    }
}

/// The file with the certificates that a script trusts.
pub(crate) fn choose_cert_file(host: &Host) -> (r: String)
    ensures
        r@ == cert_file(host.model()),
{
    match &host.ssl_cert_file {
        Some(file) => file.clone(),
        None => String::from_str("/root/.local/share/mkcert/rootCA.pem"),
    }
}

/// The address of the API that is configured, or the local one.
pub open spec fn configured_url(url: Option<Seq<char>>) -> Seq<char> {
    match url {
        Some(url) => url,
        None => "http://127.0.0.1:3000"@,
    }
}

/// The address of the API that is configured, or the local one.
pub(crate) fn choose_url(url: &Option<String>) -> (r: String)
    ensures
        r@ == configured_url(text::opt_text(*url)),
{
    match url {
        Some(url) => url.clone(),
        None => String::from_str("http://127.0.0.1:3000"),
    }
}

/// Sets a variable.
pub(crate) fn set(env: &mut Vec<(String, String)>, name: &str, value: String)
    ensures
        text::pairs(final(env)@) == text::pairs(old(env)@) + seq![(name@, value@)],
{
    let ghost before = env@;
    env.push((String::from_str(name), value));
    assert(text::pairs(env@) =~= text::pairs(before) + seq![(name@, value@)]);
}

/// Sets a variable, where there is a value for it.
pub(crate) fn set_if_some(env: &mut Vec<(String, String)>, name: &str, value: Option<String>)
    ensures
        text::pairs(final(env)@) == text::pairs(old(env)@) + if_some(
            name@,
            text::opt_text(value),
        ),
{
    let ghost before = env@;
    match value {
        Some(value) => {
            set(env, name, value);
        },
        None => {
            assert(text::pairs(env@) =~= text::pairs(before) + seq![]);
        },
    }
}

/// Whether a variable is set.
pub open spec fn sets(env: Seq<(Seq<char>, Seq<char>)>, name: Seq<char>) -> bool {
    exists|i: int| 0 <= i < env.len() && (#[trigger] env[i]).0 == name
}

/// A variable that neither of two environments sets is not set by both together.
pub(crate) proof fn lemma_sets_none(
    a: Seq<(Seq<char>, Seq<char>)>,
    b: Seq<(Seq<char>, Seq<char>)>,
    name: Seq<char>,
)
    requires
        !sets(a, name),
        !sets(b, name),
    ensures
        !sets(a + b, name),
{
    if sets(a + b, name) {
        let i = choose|i: int| 0 <= i < (a + b).len() && (#[trigger] (a + b)[i]).0 == name;
        if i < a.len() {
            assert(a[i].0 == name);
        } else {
            assert(b[i - a.len()].0 == name);
        }
    }
}

/// What is set by one of two environments is set by both together.
pub(crate) proof fn lemma_contains_either(
    a: Seq<(Seq<char>, Seq<char>)>,
    b: Seq<(Seq<char>, Seq<char>)>,
    pair: (Seq<char>, Seq<char>),
)
    requires
        a.contains(pair) || b.contains(pair),
    ensures
        (a + b).contains(pair),
{
    if a.contains(pair) {
        let i = choose|i: int| 0 <= i < a.len() && a[i] == pair;
        assert((a + b)[i] == pair);
    } else {
        let i = choose|i: int| 0 <= i < b.len() && b[i] == pair;
        assert((a + b)[a.len() + i] == pair);
    }
}

// ------------------------------------------------------------------------ laws

/// The value that a process sees for a variable: the last that is set.
pub open spec fn value_of(env: Seq<(Seq<char>, Seq<char>)>, name: Seq<char>) -> Option<Seq<char>>
    decreases env.len(),
{
    if env.len() == 0 {
        None
    } else if env.last().0 == name {
        Some(env.last().1)
    } else {
        value_of(env.drop_last(), name)
    }
}

/// What is set later counts.
pub proof fn lemma_later_value_counts(
    a: Seq<(Seq<char>, Seq<char>)>,
    b: Seq<(Seq<char>, Seq<char>)>,
    name: Seq<char>,
)
    ensures
        value_of(a + b, name) == (match value_of(b, name) {
            Some(value) => Some(value),
            None => value_of(a, name),
        }),
    decreases b.len(),
{
    if b.len() == 0 {
        assert(a + b =~= a);
    } else {
        assert((a + b).drop_last() =~= a + b.drop_last());
        assert((a + b).last() == b.last());
        lemma_later_value_counts(a, b.drop_last(), name);
    }
}

pub(crate) proof fn lemma_value_of_one(name: Seq<char>, value: Seq<char>, asked: Seq<char>)
    ensures
        value_of(seq![(name, value)], asked) == (if name == asked {
            Some(value)
        } else {
            None
        }),
        value_of(seq![], asked) is None,
{
    assert(seq![(name, value)].drop_last() =~= seq![]);
    reveal_with_fuel(value_of, 2);
}

/// The directory with the examples is the one that the server was told; where it was
/// told none, it is `examples` beside the directory that the server was built in.
pub proof fn lemma_scenario_lies_in_the_examples(host: HostModel, scenario: Seq<char>)
    requires
        paths::is_plain_name(scenario),
    ensures
        host.examples_dir matches Some(dir) ==> (dir.len() > 0 && dir.last() != '/'
            ==> scenario_dir(host, scenario) == dir + "/"@ + scenario),
        host.examples_dir is None && host.manifest_dir.len() > 0 && host.manifest_dir.last() != '/'
            ==> scenario_dir(host, scenario) == host.manifest_dir + "/../examples/"@ + scenario,
{
    reveal_strlit("/");
    reveal_strlit("..");
    reveal_strlit("examples");
    reveal_strlit("/../examples/");
    if scenario[0] == '/' {
        assert(scenario.contains(scenario[0]));
    }
    if host.examples_dir is None && host.manifest_dir.len() > 0 && host.manifest_dir.last() != '/' {
        assert(scenario_dir(host, scenario) =~= host.manifest_dir + "/../examples/"@ + scenario);
    }
}

pub(crate) proof fn lemma_value_if_some(
    name: Seq<char>,
    value: Option<Seq<char>>,
    asked: Seq<char>,
)
    ensures
        value_of(if_some(name, value), asked) == (if name == asked {
            value
        } else {
            None
        }),
{
    lemma_value_of_one(name, seq![], asked);
    if let Some(value) = value {
        lemma_value_of_one(name, value, asked);
    }
}

} // verus!
