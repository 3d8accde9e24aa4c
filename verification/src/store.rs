//! The template store: its catalog, and what the requests that read and change the
//! catalog are answered with.

use vstd::prelude::*;
use vstd::string::StringExecFns;

use crate::text;

verus! {

// ----------------------------------------------------------------------- types

/// An entry of the catalog.
#[derive(Debug)]
pub struct StoreCatalogItem {
    /// Unique identifier, such as `sandbox-code`.
    pub id: String,
    /// i18n key of the display name.
    pub name_key: String,
    /// i18n key of the description.
    pub description_key: String,
    /// Container image for the China region, which is also the default image.
    pub image_cn: String,
    /// Container image for the international region.
    pub image_intl: String,
    /// Default image, the same as `image_cn`.
    pub image: String,
    /// Expected sha256 digest, by which an update is noticed.
    pub digest: Option<String>,
    /// Tags for filtering.
    pub tags: Vec<String>,
    /// Category: `code`, `browser`, `ai` or `base`.
    pub category: String,
    /// Approximate uncompressed image size in MB.
    pub size_mb: i32,
    /// Ports to expose on the sandbox.
    pub expose_ports: Vec<i32>,
    /// Health-check probe port.
    pub probe_port: i32,
    /// Health-check probe path.
    pub probe_path: String,
    /// Writable layer size, such as `1G`.
    pub writable_layer_size: String,
    /// Whether this is an officially maintained template.
    pub official: bool,
    /// DNS servers of the sandbox, by priority.
    pub dns: Vec<String>,
}

/// The catalog as a response carries it.
#[derive(Debug)]
pub struct StoreCatalogResponse {
    pub items: Vec<StoreCatalogItem>,
}

/// The body of a request that creates or updates an entry.
#[derive(Debug)]
pub struct UpsertStoreCatalogRequest {
    pub id: String,
    pub name_key: String,
    pub description_key: String,
    pub image_cn: String,
    pub image_intl: String,
    pub digest: Option<String>,
    pub tags: Vec<String>,
    pub category: String,
    pub size_mb: i32,
    pub expose_ports: Vec<i32>,
    pub probe_port: i32,
    pub probe_path: String,
    pub writable_layer_size: String,
    pub official: bool,
    pub dns: Vec<String>,
    /// Display order, lower first.
    pub sort_order: i32,
}

/// An entry as the database keeps it.
pub struct StoreTemplateRecord {
    pub item_id: String,
    pub name_key: String,
    pub description_key: String,
    pub image_cn: String,
    pub image_intl: String,
    pub digest: Option<String>,
    pub tags: Vec<String>,
    pub category: String,
    pub size_mb: i32,
    pub expose_ports: Vec<i32>,
    pub probe_port: i32,
    pub probe_path: String,
    pub writable_layer_size: String,
    pub official: bool,
    pub dns: Vec<String>,
    pub sort_order: i32,
}

/// The answer to a request that changes the catalog.
pub enum StoreReply {
    /// The entry as it now is, with the status of the answer.
    Item { status: u16, item: StoreCatalogItem },
    /// The entry is gone.
    NoContent,
    /// The request failed, with the status of the answer and the reason.
    Failed { status: u16, error: String },
}

/// What a [`StoreCatalogItem`] holds.
pub struct ItemModel {
    pub id: Seq<char>,
    pub name_key: Seq<char>,
    pub description_key: Seq<char>,
    pub image_cn: Seq<char>,
    pub image_intl: Seq<char>,
    pub image: Seq<char>,
    pub digest: Option<Seq<char>>,
    pub tags: Seq<Seq<char>>,
    pub category: Seq<char>,
    pub size_mb: i32,
    pub expose_ports: Seq<i32>,
    pub probe_port: i32,
    pub probe_path: Seq<char>,
    pub writable_layer_size: Seq<char>,
    pub official: bool,
    pub dns: Seq<Seq<char>>,
}

/// What a [`StoreTemplateRecord`] holds.
pub struct RecordModel {
    pub item_id: Seq<char>,
    pub name_key: Seq<char>,
    pub description_key: Seq<char>,
    pub image_cn: Seq<char>,
    pub image_intl: Seq<char>,
    pub digest: Option<Seq<char>>,
    pub tags: Seq<Seq<char>>,
    pub category: Seq<char>,
    pub size_mb: i32,
    pub expose_ports: Seq<i32>,
    pub probe_port: i32,
    pub probe_path: Seq<char>,
    pub writable_layer_size: Seq<char>,
    pub official: bool,
    pub dns: Seq<Seq<char>>,
    pub sort_order: i32,
}

/// What a [`StoreReply`] holds.
pub enum ReplyModel {
    Item { status: u16, item: ItemModel },
    NoContent,
    Failed { status: u16, error: Seq<char> },
}

impl StoreCatalogItem {
    pub open spec fn model(self) -> ItemModel {
        ItemModel {
            id: self.id@,
            name_key: self.name_key@,
            description_key: self.description_key@,
            image_cn: self.image_cn@,
            image_intl: self.image_intl@,
            image: self.image@,
            digest: text::opt_text(self.digest),
            tags: text::texts(self.tags@),
            category: self.category@,
            size_mb: self.size_mb,
            expose_ports: self.expose_ports@,
            probe_port: self.probe_port,
            probe_path: self.probe_path@,
            writable_layer_size: self.writable_layer_size@,
            official: self.official,
            dns: text::texts(self.dns@),
        }
    }
}

impl StoreTemplateRecord {
    pub open spec fn model(self) -> RecordModel {
        RecordModel {
            item_id: self.item_id@,
            name_key: self.name_key@,
            description_key: self.description_key@,
            image_cn: self.image_cn@,
            image_intl: self.image_intl@,
            digest: text::opt_text(self.digest),
            tags: text::texts(self.tags@),
            category: self.category@,
            size_mb: self.size_mb,
            expose_ports: self.expose_ports@,
            probe_port: self.probe_port,
            probe_path: self.probe_path@,
            writable_layer_size: self.writable_layer_size@,
            official: self.official,
            dns: text::texts(self.dns@),
            sort_order: self.sort_order,
        }
    }
}

impl UpsertStoreCatalogRequest {
    /// The record that the request asks for, under its own identifier.
    pub open spec fn record(self) -> RecordModel {
        RecordModel {
            item_id: self.id@,
            name_key: self.name_key@,
            description_key: self.description_key@,
            image_cn: self.image_cn@,
            image_intl: self.image_intl@,
            digest: text::opt_text(self.digest),
            tags: text::texts(self.tags@),
            category: self.category@,
            size_mb: self.size_mb,
            expose_ports: self.expose_ports@,
            probe_port: self.probe_port,
            probe_path: self.probe_path@,
            writable_layer_size: self.writable_layer_size@,
            official: self.official,
            dns: text::texts(self.dns@),
            sort_order: self.sort_order,
        }
    }
}

impl StoreReply {
    pub open spec fn model(self) -> ReplyModel {
        match self {
            StoreReply::Item { status, item } => ReplyModel::Item { status, item: item.model() },
            StoreReply::NoContent => ReplyModel::NoContent,
            StoreReply::Failed { status, error } => ReplyModel::Failed { status, error: error@ },
        }
    }

    /// The status of the answer.
    pub fn status(&self) -> (r: u16)
        ensures
            r == (match self.model() {
                ReplyModel::Item { status, .. } => status,
                ReplyModel::NoContent => 204,
                ReplyModel::Failed { status, .. } => status,
            }),
    {
        match self {
            StoreReply::Item { status, .. } => *status,
            StoreReply::NoContent => 204,
            StoreReply::Failed { status, .. } => *status,
        }
    }
}

/// What a row of items holds.
pub open spec fn items_model(items: Seq<StoreCatalogItem>) -> Seq<ItemModel> {
    items.map_values(|item: StoreCatalogItem| item.model())
}

/// What a row of records holds.
pub open spec fn records_model(records: Seq<StoreTemplateRecord>) -> Seq<RecordModel> {
    records.map_values(|record: StoreTemplateRecord| record.model())
}

/// What the database gave: its rows, where there is a database and it could be
/// read.
pub open spec fn rows_model(rows: Option<Vec<StoreTemplateRecord>>) -> Option<Seq<RecordModel>> {
    match rows {
        Some(rows) => Some(records_model(rows@)),
        None => None,
    }
}

// -------------------------------------------------------------------- defaults

/// The probe path of a request that names none.
pub fn default_probe_path() -> (r: String)
    ensures
        r@ == "/"@,
{
    String::from_str("/")
}

/// The writable layer size of a request that names none.
pub fn default_writable_layer_size() -> (r: String)
    ensures
        r@ == "1G"@,
{
    String::from_str("1G")
}

/// The catalog item `sandbox-code`.
pub open spec fn sandbox_code_item() -> ItemModel {
    ItemModel {
        id: "sandbox-code"@,
        name_key: "items.sandbox-code.name"@,
        description_key: "items.sandbox-code.description"@,
        image_cn: "cube-sandbox-cn.tencentcloudcr.com/cube-sandbox/sandbox-code:latest"@,
        image_intl: "cube-sandbox-int.tencentcloudcr.com/cube-sandbox/sandbox-code:latest"@,
        image: "cube-sandbox-cn.tencentcloudcr.com/cube-sandbox/sandbox-code:latest"@,
        digest: Some("sha256:a7b8654aac5b90e241b98e195ae1d8c85d59fe1fb8c282bcccf1071f877db20f"@),
        tags: seq!["python"@, "jupyter"@, "official"@],
        category: "code"@,
        size_mb: 207,
        expose_ports: seq![49983i32, 49999i32],
        probe_port: 49999,
        probe_path: "/"@,
        writable_layer_size: "1G"@,
        official: true,
        dns: seq![],
    }
}

/// The catalog item `sandbox-browser`.
pub open spec fn sandbox_browser_item() -> ItemModel {
    ItemModel {
        id: "sandbox-browser"@,
        name_key: "items.sandbox-browser.name"@,
        description_key: "items.sandbox-browser.description"@,
        image_cn: "cube-sandbox-cn.tencentcloudcr.com/cube-sandbox/sandbox-browser:latest"@,
        image_intl: "cube-sandbox-int.tencentcloudcr.com/cube-sandbox/sandbox-browser:latest"@,
        image: "cube-sandbox-cn.tencentcloudcr.com/cube-sandbox/sandbox-browser:latest"@,
        digest: Some("sha256:1786786af8510c34eda64ebec5b0a61a98583cb311c3045c0222910ec0680d60"@),
        tags: seq!["browser"@, "chromium"@, "official"@],
        category: "browser"@,
        size_mb: 1530,
        expose_ports: seq![49983i32, 9000i32],
        probe_port: 9000,
        probe_path: "/cdp/json/version"@,
        writable_layer_size: "1G"@,
        official: true,
        dns: seq!["183.60.83.19"@, "114.114.114.114"@, "223.5.5.5"@, "8.8.8.8"@],
    }
}

/// The catalog item `openclaw`.
pub open spec fn openclaw_item() -> ItemModel {
    ItemModel {
        id: "openclaw"@,
        name_key: "items.openclaw.name"@,
        description_key: "items.openclaw.description"@,
        image_cn: "cube-sandbox-image.tencentcloudcr.com/demo/aio-sandbox-envd-openclaw:latest"@,
        image_intl: "cube-sandbox-image.tencentcloudcr.com/demo/aio-sandbox-envd-openclaw:latest"@,
        image: "cube-sandbox-image.tencentcloudcr.com/demo/aio-sandbox-envd-openclaw:latest"@,
        digest: Some("sha256:47680d7bc13ea7c57aeb88dff59ef2c44b0facb508e8c9066d479d7d458e0a66"@),
        tags: seq!["agent"@, "openclaw"@, "browser"@, "deepseek"@],
        category: "ai"@,
        size_mb: 6350,
        expose_ports: seq![49983i32, 18789i32, 8080i32],
        probe_port: 49983,
        probe_path: "/health"@,
        writable_layer_size: "4G"@,
        official: true,
        dns: seq![],
    }
}

/// The catalog item `cubesandbox-base`.
pub open spec fn cubesandbox_base_item() -> ItemModel {
    ItemModel {
        id: "cubesandbox-base"@,
        name_key: "items.cubesandbox-base.name"@,
        description_key: "items.cubesandbox-base.description"@,
        image_cn: "ghcr.io/tencentcloud/cubesandbox-base:latest"@,
        image_intl: "ghcr.io/tencentcloud/cubesandbox-base:latest"@,
        image: "ghcr.io/tencentcloud/cubesandbox-base:latest"@,
        digest: None,
        tags: seq!["base"@, "envd"@, "official"@],
        category: "base"@,
        size_mb: 98,
        expose_ports: seq![49983i32],
        probe_port: 49983,
        probe_path: "/health"@,
        writable_layer_size: "1G"@,
        official: true,
        dns: seq![],
    }
}

/// The catalog item `sandbox-nginx`.
pub open spec fn sandbox_nginx_item() -> ItemModel {
    ItemModel {
        id: "sandbox-nginx"@,
        name_key: "items.sandbox-nginx.name"@,
        description_key: "items.sandbox-nginx.description"@,
        image_cn: "cube-sandbox-cn.tencentcloudcr.com/cube-sandbox/sandbox-nginx:latest"@,
        image_intl: "cube-sandbox-int.tencentcloudcr.com/cube-sandbox/sandbox-nginx:latest"@,
        image: "cube-sandbox-cn.tencentcloudcr.com/cube-sandbox/sandbox-nginx:latest"@,
        digest: None,
        tags: seq!["nginx"@, "web"@, "official"@],
        category: "base"@,
        size_mb: 120,
        expose_ports: seq![49983i32, 80i32],
        probe_port: 49983,
        probe_path: "/health"@,
        writable_layer_size: "1G"@,
        official: true,
        dns: seq![],
    }
}

/// The catalog of a server without a database.
pub open spec fn catalog() -> Seq<ItemModel> {
    seq![
        sandbox_code_item(),
        sandbox_browser_item(),
        openclaw_item(),
        cubesandbox_base_item(),
        sandbox_nginx_item(),
    ]
}

fn new_sandbox_code_item() -> (r: StoreCatalogItem)
    ensures
        r.model() == sandbox_code_item(),
{
    let r = StoreCatalogItem {
        id: String::from_str("sandbox-code"),
        name_key: String::from_str("items.sandbox-code.name"),
        description_key: String::from_str("items.sandbox-code.description"),
        image_cn: String::from_str("cube-sandbox-cn.tencentcloudcr.com/cube-sandbox/sandbox-code:latest"),
        image_intl: String::from_str("cube-sandbox-int.tencentcloudcr.com/cube-sandbox/sandbox-code:latest"),
        image: String::from_str("cube-sandbox-cn.tencentcloudcr.com/cube-sandbox/sandbox-code:latest"),
        digest: Some(String::from_str("sha256:a7b8654aac5b90e241b98e195ae1d8c85d59fe1fb8c282bcccf1071f877db20f")),
        tags: vec![String::from_str("python"), String::from_str("jupyter"), String::from_str("official")],
        category: String::from_str("code"),
        size_mb: 207,
        expose_ports: vec![49983, 49999],
        probe_port: 49999,
        probe_path: String::from_str("/"),
        writable_layer_size: String::from_str("1G"),
        official: true,
        dns: Vec::new(),
    };
    assert(r.model().tags =~= sandbox_code_item().tags);
    assert(r.model().expose_ports =~= sandbox_code_item().expose_ports);
    assert(r.model().dns =~= sandbox_code_item().dns);
    r
}

fn new_sandbox_browser_item() -> (r: StoreCatalogItem)
    ensures
        r.model() == sandbox_browser_item(),
{
    let r = StoreCatalogItem {
        id: String::from_str("sandbox-browser"),
        name_key: String::from_str("items.sandbox-browser.name"),
        description_key: String::from_str("items.sandbox-browser.description"),
        image_cn: String::from_str("cube-sandbox-cn.tencentcloudcr.com/cube-sandbox/sandbox-browser:latest"),
        image_intl: String::from_str("cube-sandbox-int.tencentcloudcr.com/cube-sandbox/sandbox-browser:latest"),
        image: String::from_str("cube-sandbox-cn.tencentcloudcr.com/cube-sandbox/sandbox-browser:latest"),
        digest: Some(String::from_str("sha256:1786786af8510c34eda64ebec5b0a61a98583cb311c3045c0222910ec0680d60")),
        tags: vec![String::from_str("browser"), String::from_str("chromium"), String::from_str("official")],
        category: String::from_str("browser"),
        size_mb: 1530,
        expose_ports: vec![49983, 9000],
        probe_port: 9000,
        probe_path: String::from_str("/cdp/json/version"),
        writable_layer_size: String::from_str("1G"),
        official: true,
        dns: vec![String::from_str("183.60.83.19"), String::from_str("114.114.114.114"), String::from_str("223.5.5.5"), String::from_str("8.8.8.8")],
    };
    assert(r.model().tags =~= sandbox_browser_item().tags);
    assert(r.model().expose_ports =~= sandbox_browser_item().expose_ports);
    assert(r.model().dns =~= sandbox_browser_item().dns);
    r
}

fn new_openclaw_item() -> (r: StoreCatalogItem)
    ensures
        r.model() == openclaw_item(),
{
    let r = StoreCatalogItem {
        id: String::from_str("openclaw"),
        name_key: String::from_str("items.openclaw.name"),
        description_key: String::from_str("items.openclaw.description"),
        image_cn: String::from_str("cube-sandbox-image.tencentcloudcr.com/demo/aio-sandbox-envd-openclaw:latest"),
        image_intl: String::from_str("cube-sandbox-image.tencentcloudcr.com/demo/aio-sandbox-envd-openclaw:latest"),
        image: String::from_str("cube-sandbox-image.tencentcloudcr.com/demo/aio-sandbox-envd-openclaw:latest"),
        digest: Some(String::from_str("sha256:47680d7bc13ea7c57aeb88dff59ef2c44b0facb508e8c9066d479d7d458e0a66")),
        tags: vec![String::from_str("agent"), String::from_str("openclaw"), String::from_str("browser"), String::from_str("deepseek")],
        category: String::from_str("ai"),
        size_mb: 6350,
        expose_ports: vec![49983, 18789, 8080],
        probe_port: 49983,
        probe_path: String::from_str("/health"),
        writable_layer_size: String::from_str("4G"),
        official: true,
        dns: Vec::new(),
    };
    assert(r.model().tags =~= openclaw_item().tags);
    assert(r.model().expose_ports =~= openclaw_item().expose_ports);
    assert(r.model().dns =~= openclaw_item().dns);
    r
}

fn new_cubesandbox_base_item() -> (r: StoreCatalogItem)
    ensures
        r.model() == cubesandbox_base_item(),
{
    let r = StoreCatalogItem {
        id: String::from_str("cubesandbox-base"),
        name_key: String::from_str("items.cubesandbox-base.name"),
        description_key: String::from_str("items.cubesandbox-base.description"),
        image_cn: String::from_str("ghcr.io/tencentcloud/cubesandbox-base:latest"),
        image_intl: String::from_str("ghcr.io/tencentcloud/cubesandbox-base:latest"),
        image: String::from_str("ghcr.io/tencentcloud/cubesandbox-base:latest"),
        digest: None,
        tags: vec![String::from_str("base"), String::from_str("envd"), String::from_str("official")],
        category: String::from_str("base"),
        size_mb: 98,
        expose_ports: vec![49983],
        probe_port: 49983,
        probe_path: String::from_str("/health"),
        writable_layer_size: String::from_str("1G"),
        official: true,
        dns: Vec::new(),
    };
    assert(r.model().tags =~= cubesandbox_base_item().tags);
    assert(r.model().expose_ports =~= cubesandbox_base_item().expose_ports);
    assert(r.model().dns =~= cubesandbox_base_item().dns);
    r
}

fn new_sandbox_nginx_item() -> (r: StoreCatalogItem)
    ensures
        r.model() == sandbox_nginx_item(),
{
    let r = StoreCatalogItem {
        id: String::from_str("sandbox-nginx"),
        name_key: String::from_str("items.sandbox-nginx.name"),
        description_key: String::from_str("items.sandbox-nginx.description"),
        image_cn: String::from_str("cube-sandbox-cn.tencentcloudcr.com/cube-sandbox/sandbox-nginx:latest"),
        image_intl: String::from_str("cube-sandbox-int.tencentcloudcr.com/cube-sandbox/sandbox-nginx:latest"),
        image: String::from_str("cube-sandbox-cn.tencentcloudcr.com/cube-sandbox/sandbox-nginx:latest"),
        digest: None,
        tags: vec![String::from_str("nginx"), String::from_str("web"), String::from_str("official")],
        category: String::from_str("base"),
        size_mb: 120,
        expose_ports: vec![49983, 80],
        probe_port: 49983,
        probe_path: String::from_str("/health"),
        writable_layer_size: String::from_str("1G"),
        official: true,
        dns: Vec::new(),
    };
    assert(r.model().tags =~= sandbox_nginx_item().tags);
    assert(r.model().expose_ports =~= sandbox_nginx_item().expose_ports);
    assert(r.model().dns =~= sandbox_nginx_item().dns);
    r
}

/// The catalog of a server without a database.
pub fn fallback_catalog() -> (r: Vec<StoreCatalogItem>)
    ensures
        items_model(r@) == catalog(),
{
    let r = vec![
        new_sandbox_code_item(),
        new_sandbox_browser_item(),
        new_openclaw_item(),
        new_cubesandbox_base_item(),
        new_sandbox_nginx_item(),
    ];
    assert(items_model(r@) =~= catalog());
    r
}

// ----------------------------------------------------------------- conversions

/// A record as an entry of the catalog. The default image is the one for the China
/// region.
pub open spec fn item_of(record: RecordModel) -> ItemModel {
    ItemModel {
        id: record.item_id,
        name_key: record.name_key,
        description_key: record.description_key,
        image_cn: record.image_cn,
        image_intl: record.image_intl,
        image: record.image_cn,
        digest: record.digest,
        tags: record.tags,
        category: record.category,
        size_mb: record.size_mb,
        expose_ports: record.expose_ports,
        probe_port: record.probe_port,
        probe_path: record.probe_path,
        writable_layer_size: record.writable_layer_size,
        official: record.official,
        dns: record.dns,
    }
}

fn copy_ports(ports: &Vec<i32>) -> (r: Vec<i32>)
    ensures
        r@ == ports@,
{
    let mut out: Vec<i32> = Vec::new();
    let mut i: usize = 0;
    while i < ports.len()
        invariant
            i <= ports@.len(),
            out@ == ports@.take(i as int),
        decreases ports.len() - i,
    {
        out.push(ports[i]);
        assert(ports@.take(i + 1) =~= ports@.take(i as int).push(ports@[i as int]));
        i += 1;
    }
    assert(ports@.take(i as int) =~= ports@);
    out
}

impl vstd::std_specs::convert::FromSpecImpl<StoreTemplateRecord> for StoreCatalogItem {
    open spec fn obeys_from_spec() -> bool {
        true
    }

    open spec fn from_spec(r: StoreTemplateRecord) -> StoreCatalogItem {
        StoreCatalogItem {
            id: r.item_id,
            name_key: r.name_key,
            description_key: r.description_key,
            image_cn: r.image_cn,
            image_intl: r.image_intl,
            image: r.image_cn,
            digest: r.digest,
            tags: r.tags,
            category: r.category,
            size_mb: r.size_mb,
            expose_ports: r.expose_ports,
            probe_port: r.probe_port,
            probe_path: r.probe_path,
            writable_layer_size: r.writable_layer_size,
            official: r.official,
            dns: r.dns,
        }
    }
}

impl From<StoreTemplateRecord> for StoreCatalogItem {
    /// A record as an entry of the catalog.
    fn from(r: StoreTemplateRecord) -> (item: StoreCatalogItem)
        ensures
            item.model() == item_of(r.model()),
    {
        StoreCatalogItem {
            id: r.item_id,
            name_key: r.name_key,
            description_key: r.description_key,
            image_cn: r.image_cn.clone(),
            image_intl: r.image_intl,
            image: r.image_cn,
            digest: r.digest,
            tags: r.tags,
            category: r.category,
            size_mb: r.size_mb,
            expose_ports: r.expose_ports,
            probe_port: r.probe_port,
            probe_path: r.probe_path,
            writable_layer_size: r.writable_layer_size,
            official: r.official,
            dns: r.dns,
        }
    }
}

/// The lists of a record are copies, of which the contract of the conversion says
/// what they hold.
impl vstd::std_specs::convert::FromSpecImpl<&UpsertStoreCatalogRequest> for StoreTemplateRecord {
    open spec fn obeys_from_spec() -> bool {
        false
    }

    open spec fn from_spec(r: &UpsertStoreCatalogRequest) -> StoreTemplateRecord {
        arbitrary()
    }
}

impl From<&UpsertStoreCatalogRequest> for StoreTemplateRecord {
    /// The record that a request asks for, under its own identifier.
    fn from(r: &UpsertStoreCatalogRequest) -> (record: StoreTemplateRecord)
        ensures
            record.model() == r.record(),
    {
        StoreTemplateRecord {
            item_id: r.id.clone(),
            name_key: r.name_key.clone(),
            description_key: r.description_key.clone(),
            image_cn: r.image_cn.clone(),
            image_intl: r.image_intl.clone(),
            digest: match &r.digest {
                Some(digest) => Some(digest.clone()),
                None => None,
            },
            tags: text::copy_texts(&r.tags),
            category: r.category.clone(),
            size_mb: r.size_mb,
            expose_ports: copy_ports(&r.expose_ports),
            probe_port: r.probe_port,
            probe_path: r.probe_path.clone(),
            writable_layer_size: r.writable_layer_size.clone(),
            official: r.official,
            dns: text::copy_texts(&r.dns),
            sort_order: r.sort_order,
        }
    }
}

// -------------------------------------------------------------------- requests

/// The catalog that is shown: the rows of the database, or the built-in catalog
/// where there are none to be had.
pub open spec fn shown_catalog(rows: Option<Seq<RecordModel>>) -> Seq<ItemModel> {
    match rows {
        Some(rows) => rows.map_values(|row: RecordModel| item_of(row)),
        None => catalog(),
    }
}

/// The catalog that is shown.
pub fn list_store_catalog(rows: Option<Vec<StoreTemplateRecord>>) -> (r: StoreCatalogResponse)
    ensures
        items_model(r.items@) == shown_catalog(rows_model(rows)),
{
    match rows {
        Some(rows) => {
            let ghost given = rows@;
            let mut items: Vec<StoreCatalogItem> = Vec::new();
            for row in iter: rows
                invariant
                    iter.seq() == given,
                    items@.len() == iter.index(),
                    forall|k: int|
                        0 <= k < items@.len() ==> (#[trigger] items@[k]).model() == item_of(
                            given[k].model(),
                        ),
            {
                items.push(StoreCatalogItem::from(row));
            }
            assert(items_model(items@) =~= shown_catalog(Some(records_model(given))));
            StoreCatalogResponse { items }
        },
        None => StoreCatalogResponse { items: fallback_catalog() },
    }
}

/// The answer to a change that no database can take.
pub open spec fn unavailable() -> ReplyModel {
    ReplyModel::Failed { status: 503, error: "Database not configured"@ }
}

fn reply_unavailable() -> (r: StoreReply)
    ensures
        r.model() == unavailable(),
{
    StoreReply::Failed { status: 503, error: String::from_str("Database not configured") }
}

/// The record that is to be created, where there is a database.
pub fn create_store_catalog_item(configured: bool, body: &UpsertStoreCatalogRequest) -> (r: Result<
    StoreTemplateRecord,
    StoreReply,
>)
    ensures
        match r {
            Ok(record) => configured && record.model() == body.record(),
            Err(reply) => !configured && reply.model() == unavailable(),
        },
{
    if configured {
        Ok(StoreTemplateRecord::from(body))
    } else {
        Err(reply_unavailable())
    }
}

/// The record that is to be written, where there is a database: what the request
/// asks for, under the identifier of the path, whatever the body says.
pub fn update_store_catalog_item(
    configured: bool,
    item_id: String,
    body: &UpsertStoreCatalogRequest,
) -> (r: Result<StoreTemplateRecord, StoreReply>)
    ensures
        match r {
            Ok(record) => configured && record.model() == (RecordModel {
                item_id: item_id@,
                ..body.record()
            }),
            Err(reply) => !configured && reply.model() == unavailable(),
        },
{
    if configured {
        let mut record = StoreTemplateRecord::from(body);
        record.item_id = item_id;
        Ok(record)
    } else {
        Err(reply_unavailable())
    }
}

/// Whether an entry can be deleted: where there is a database.
pub fn delete_store_catalog_item(configured: bool) -> (r: Result<(), StoreReply>)
    ensures
        match r {
            Ok(_) => configured,
            Err(reply) => !configured && reply.model() == unavailable(),
        },
{
    if configured {
        Ok(())
    } else {
        Err(reply_unavailable())
    }
}

/// The answer once the database has taken a record or not: the entry with the
/// given status, or status 500 with the reason.
pub open spec fn written_reply(
    record: RecordModel,
    status: u16,
    outcome: Result<(), Seq<char>>,
) -> ReplyModel {
    match outcome {
        Ok(_) => ReplyModel::Item { status, item: item_of(record) },
        Err(error) => ReplyModel::Failed { status: 500, error },
    }
}

/// What the database said of a change.
pub open spec fn outcome_model(outcome: Result<(), String>) -> Result<(), Seq<char>> {
    match outcome {
        Ok(done) => Ok(done),
        Err(error) => Err(error@),
    }
}

fn reply_written(record: StoreTemplateRecord, status: u16, outcome: Result<(), String>) -> (r:
    StoreReply)
    ensures
        r.model() == written_reply(record.model(), status, outcome_model(outcome)),
{
    match outcome {
        Ok(_) => StoreReply::Item { status, item: StoreCatalogItem::from(record) },
        Err(error) => StoreReply::Failed { status: 500, error },
    }
}

/// The answer to a request that created an entry, or could not.
pub fn created_reply(record: StoreTemplateRecord, outcome: Result<(), String>) -> (r: StoreReply)
    ensures
        r.model() == written_reply(record.model(), 201, outcome_model(outcome)),
{
    reply_written(record, 201, outcome)
}

/// The answer to a request that updated an entry, or could not.
pub fn updated_reply(record: StoreTemplateRecord, outcome: Result<(), String>) -> (r: StoreReply)
    ensures
        r.model() == written_reply(record.model(), 200, outcome_model(outcome)),
{
    reply_written(record, 200, outcome)
}

/// The answer to a request that deleted an entry, or could not.
pub fn deleted_reply(outcome: Result<(), String>) -> (r: StoreReply)
    ensures
        r.model() == (match outcome {
            Ok(_) => ReplyModel::NoContent,
            Err(error) => ReplyModel::Failed { status: 500, error: error@ },
        }),
{
    match outcome {
        Ok(_) => StoreReply::NoContent,
        Err(error) => StoreReply::Failed { status: 500, error },
    }
}

// ------------------------------------------------------------------------ laws

/// The default image of an entry is the one for the China region, whatever the
/// catalog comes from.
pub proof fn lemma_default_image_is_image_cn(rows: Option<Seq<RecordModel>>, i: int)
    requires
        0 <= i < shown_catalog(rows).len(),
    ensures
        shown_catalog(rows)[i].image == shown_catalog(rows)[i].image_cn,
{
}

/// The built-in catalog has no identifier twice, and every item of it exposes the
/// port of `envd` and the port that it is probed on.
pub proof fn lemma_catalog_is_sound()
    ensures
        forall|i: int, j: int|
            0 <= i < j < catalog().len() ==> (#[trigger] catalog()[i]).id != (
            #[trigger] catalog()[j]).id,
        forall|i: int|
            0 <= i < catalog().len() ==> (#[trigger] catalog()[i]).expose_ports.contains(
                catalog()[i].probe_port,
            ) && catalog()[i].expose_ports.contains(49983i32),
{
    reveal_strlit("sandbox-code");
    reveal_strlit("sandbox-browser");
    reveal_strlit("openclaw");
    reveal_strlit("cubesandbox-base");
    reveal_strlit("sandbox-nginx");
    assert("sandbox-code"@.len() == 12 && "sandbox-code"@[0] == 's' && "sandbox-code"@[11] == 'e');
    assert("sandbox-browser"@.len() == 15 && "sandbox-browser"@[0] == 's' && "sandbox-browser"@[14] == 'r');
    assert("openclaw"@.len() == 8 && "openclaw"@[0] == 'o' && "openclaw"@[7] == 'w');
    assert("cubesandbox-base"@.len() == 16 && "cubesandbox-base"@[0] == 'c' && "cubesandbox-base"@[15] == 'e');
    assert("sandbox-nginx"@.len() == 13 && "sandbox-nginx"@[0] == 's' && "sandbox-nginx"@[12] == 'x');
    assert forall|i: int| 0 <= i < catalog().len() implies (
    #[trigger] catalog()[i]).expose_ports.contains(catalog()[i].probe_port)
        && catalog()[i].expose_ports.contains(49983i32) by {
        let ports = catalog()[i].expose_ports;
        assert(ports[0] == 49983i32);
        if i < 2 {
            assert(ports[1] == catalog()[i].probe_port);
        }
    }
}

/// The categories of the catalog.
pub open spec fn is_category(category: Seq<char>) -> bool {
    category == "code"@ || category == "browser"@ || category == "ai"@ || category == "base"@
}

/// Every item of the built-in catalog has one of the categories.
pub proof fn lemma_catalog_has_known_categories(i: int)
    requires
        0 <= i < catalog().len(),
    ensures
        is_category(catalog()[i].category),
{
}

/// What a request creates is what it is answered with: every field of the entry is
/// the one that was sent.
pub proof fn lemma_created_entry_is_the_one_sent(body: UpsertStoreCatalogRequest)
    ensures
        written_reply(body.record(), 201, Ok(())) matches ReplyModel::Item { status, item } && {
            &&& status == 201
            &&& item.id == body.id@
            &&& item.name_key == body.name_key@
            &&& item.description_key == body.description_key@
            &&& item.image_cn == body.image_cn@
            &&& item.image_intl == body.image_intl@
            &&& item.image == body.image_cn@
            &&& item.digest == text::opt_text(body.digest)
            &&& item.tags == text::texts(body.tags@)
            &&& item.category == body.category@
            &&& item.size_mb == body.size_mb
            &&& item.expose_ports == body.expose_ports@
            &&& item.probe_port == body.probe_port
            &&& item.probe_path == body.probe_path@
            &&& item.writable_layer_size == body.writable_layer_size@
            &&& item.official == body.official
            &&& item.dns == text::texts(body.dns@)
        },
{
}

/// The catalog that is shown has an entry for every row of the database, in order, with
/// all that the row says.
pub proof fn lemma_every_row_is_shown(rows: Seq<RecordModel>, i: int)
    requires
        0 <= i < rows.len(),
    ensures
        shown_catalog(Some(rows)).len() == rows.len(),
        ({
            let item = shown_catalog(Some(rows))[i];
            let row = rows[i];
            &&& item.id == row.item_id
            &&& item.name_key == row.name_key
            &&& item.description_key == row.description_key
            &&& item.image_cn == row.image_cn
            &&& item.image_intl == row.image_intl
            &&& item.image == row.image_cn
            &&& item.digest == row.digest
            &&& item.tags == row.tags
            &&& item.category == row.category
            &&& item.size_mb == row.size_mb
            &&& item.expose_ports == row.expose_ports
            &&& item.probe_port == row.probe_port
            &&& item.probe_path == row.probe_path
            &&& item.writable_layer_size == row.writable_layer_size
            &&& item.official == row.official
            &&& item.dns == row.dns
        }),
{
}

/// A database without rows is shown as an empty catalog; only where there is none to be
/// had, the built-in catalog is shown.
pub proof fn lemma_empty_database_is_shown_as_it_is()
    ensures
        shown_catalog(Some(seq![])).len() == 0,
        shown_catalog(None) == catalog(),
        catalog().len() > 0,
{
}

/// An entry that was written is answered with itself, as it is shown from then on; one
/// that was not, with the reason and the status 500.
pub proof fn lemma_written_entry_is_shown(
    rows: Seq<RecordModel>,
    record: RecordModel,
    status: u16,
    error: Seq<char>,
)
    ensures
        written_reply(record, status, Ok(())) == (ReplyModel::Item {
            status,
            item: shown_catalog(Some(rows.push(record))).last(),
        }),
        written_reply(record, status, Err(error)) == (ReplyModel::Failed { status: 500, error }),
        unavailable() matches ReplyModel::Failed { status: refused, .. } && refused == 503,
{
}

/// A request changes the catalog only where there is a database; else it is answered
/// with the status 503.
pub proof fn lemma_change_needs_a_database(
    configured: bool,
    item_id: String,
    body: &UpsertStoreCatalogRequest,
    created: Result<StoreTemplateRecord, StoreReply>,
    updated: Result<StoreTemplateRecord, StoreReply>,
    deleted: Result<(), StoreReply>,
)
    requires
        call_ensures(create_store_catalog_item, (configured, body), created),
        call_ensures(update_store_catalog_item, (configured, item_id, body), updated),
        call_ensures(delete_store_catalog_item, (configured,), deleted),
    ensures
        created is Ok <==> configured,
        updated is Ok <==> configured,
        deleted is Ok <==> configured,
        created matches Err(reply) ==> (reply.model() matches ReplyModel::Failed { status, .. }
            && status == 503),
        updated matches Err(reply) ==> (reply.model() matches ReplyModel::Failed { status, .. }
            && status == 503),
        deleted matches Err(reply) ==> (reply.model() matches ReplyModel::Failed { status, .. }
            && status == 503),
{
}

/// What is written is what was sent, field by field; an update goes to the entry that
/// the path names, whatever the body says.
pub proof fn lemma_written_is_what_was_sent(
    item_id: String,
    body: &UpsertStoreCatalogRequest,
    created: Result<StoreTemplateRecord, StoreReply>,
    updated: Result<StoreTemplateRecord, StoreReply>,
)
    requires
        call_ensures(create_store_catalog_item, (true, body), created),
        call_ensures(update_store_catalog_item, (true, item_id, body), updated),
    ensures
        created matches Ok(record) && record.item_id@ == body.id@ && holds_what_was_sent(
            record,
            *body,
        ),
        updated matches Ok(record) && record.item_id@ == item_id@ && holds_what_was_sent(
            record,
            *body,
        ),
{
    lemma_holds_what_was_sent(created->Ok_0, *body);
    lemma_holds_what_was_sent(updated->Ok_0, *body);
}

proof fn lemma_holds_what_was_sent(record: StoreTemplateRecord, body: UpsertStoreCatalogRequest)
    requires
        record.model() == (RecordModel { item_id: record.item_id@, ..body.record() }),
    ensures
        holds_what_was_sent(record, body),
{
    let a = record.model();
    let b = RecordModel { item_id: record.item_id@, ..body.record() };
    assert(a.name_key == b.name_key);
}

/// Whether a record holds what a request sent, but for the identifier.
pub open spec fn holds_what_was_sent(
    record: StoreTemplateRecord,
    body: UpsertStoreCatalogRequest,
) -> bool {
    &&& record.name_key@ == body.name_key@
    &&& record.description_key@ == body.description_key@
    &&& record.image_cn@ == body.image_cn@
    &&& record.image_intl@ == body.image_intl@
    &&& text::opt_text(record.digest) == text::opt_text(body.digest)
    &&& text::texts(record.tags@) == text::texts(body.tags@)
    &&& record.category@ == body.category@
    &&& record.size_mb == body.size_mb
    &&& record.expose_ports@ == body.expose_ports@
    &&& record.probe_port == body.probe_port
    &&& record.probe_path@ == body.probe_path@
    &&& record.writable_layer_size@ == body.writable_layer_size@
    &&& record.official == body.official
    &&& text::texts(record.dns@) == text::texts(body.dns@)
    &&& record.sort_order == body.sort_order
}

/// A change that the database took is answered with 201 for a new entry, with 200 for
/// an old one and with 204 for one that is gone; one that it did not take with 500 and
/// the reason.
pub proof fn lemma_change_is_answered(
    record: StoreTemplateRecord,
    outcome: Result<(), String>,
    created: StoreReply,
    updated: StoreReply,
    deleted: StoreReply,
)
    requires
        call_ensures(created_reply, (record, outcome), created),
        call_ensures(updated_reply, (record, outcome), updated),
        call_ensures(deleted_reply, (outcome,), deleted),
    ensures
        outcome is Ok ==> {
            &&& created.model() == (ReplyModel::Item {
                status: 201,
                item: shown_catalog(Some(seq![record.model()]))[0],
            })
            &&& updated.model() == (ReplyModel::Item {
                status: 200,
                item: shown_catalog(Some(seq![record.model()]))[0],
            })
            &&& deleted.model() is NoContent
        },
        outcome matches Err(error) ==> {
            &&& created.model() == (ReplyModel::Failed { status: 500, error: error@ })
            &&& updated.model() == (ReplyModel::Failed { status: 500, error: error@ })
            &&& deleted.model() == (ReplyModel::Failed { status: 500, error: error@ })
        },
{
}

/// Every item of the built-in catalog has the keys of its own texts and is official.
pub proof fn lemma_catalog_has_its_own_texts(i: int)
    requires
        0 <= i < catalog().len(),
    ensures
        catalog()[i].name_key == "items."@ + catalog()[i].id + ".name"@,
        catalog()[i].description_key == "items."@ + catalog()[i].id + ".description"@,
        catalog()[i].official,
        catalog()[i].image == catalog()[i].image_cn,
{
    reveal_strlit("items.");
    reveal_strlit(".name");
    reveal_strlit(".description");
    if i == 0 {
        reveal_strlit("sandbox-code");
        reveal_strlit("items.sandbox-code.name");
        reveal_strlit("items.sandbox-code.description");
        assert("items.sandbox-code.name"@ =~= "items."@ + "sandbox-code"@ + ".name"@);
        assert("items.sandbox-code.description"@ =~= "items."@ + "sandbox-code"@ + ".description"@);
    } else if i == 1 {
        reveal_strlit("sandbox-browser");
        reveal_strlit("items.sandbox-browser.name");
        reveal_strlit("items.sandbox-browser.description");
        assert("items.sandbox-browser.name"@ =~= "items."@ + "sandbox-browser"@ + ".name"@);
        assert("items.sandbox-browser.description"@ =~= "items."@ + "sandbox-browser"@ + ".description"@);
    } else if i == 2 {
        reveal_strlit("openclaw");
        reveal_strlit("items.openclaw.name");
        reveal_strlit("items.openclaw.description");
        assert("items.openclaw.name"@ =~= "items."@ + "openclaw"@ + ".name"@);
        assert("items.openclaw.description"@ =~= "items."@ + "openclaw"@ + ".description"@);
    } else if i == 3 {
        reveal_strlit("cubesandbox-base");
        reveal_strlit("items.cubesandbox-base.name");
        reveal_strlit("items.cubesandbox-base.description");
        assert("items.cubesandbox-base.name"@ =~= "items."@ + "cubesandbox-base"@ + ".name"@);
        assert("items.cubesandbox-base.description"@ =~= "items."@ + "cubesandbox-base"@ + ".description"@);
    } else if i == 4 {
        reveal_strlit("sandbox-nginx");
        reveal_strlit("items.sandbox-nginx.name");
        reveal_strlit("items.sandbox-nginx.description");
        assert("items.sandbox-nginx.name"@ =~= "items."@ + "sandbox-nginx"@ + ".name"@);
        assert("items.sandbox-nginx.description"@ =~= "items."@ + "sandbox-nginx"@ + ".description"@);
    }
}

/// The status of an answer is the one that it carries; an entry that is gone has 204.
pub proof fn lemma_status_of_an_answer(reply: &StoreReply, shown: u16)
    requires
        call_ensures(StoreReply::status, (reply,), shown),
    ensures
        reply matches StoreReply::Item { status, .. } ==> shown == status,
        reply matches StoreReply::Failed { status, .. } ==> shown == status,
        reply is NoContent ==> shown == 204,
{
}

/// The catalog that is shown is that of the database, where it can be read, and else
/// the built-in one.
pub proof fn lemma_catalog_is_listed(
    rows: Option<Vec<StoreTemplateRecord>>,
    shown: StoreCatalogResponse,
    i: int,
)
    requires
        call_ensures(list_store_catalog, (rows,), shown),
    ensures
        rows is None ==> items_model(shown.items@) == catalog(),
        rows matches Some(rows) ==> shown.items@.len() == rows@.len() && (0 <= i < rows@.len()
            ==> {
            &&& shown.items@[i].id@ == rows@[i].item_id@
            &&& shown.items@[i].image_cn@ == rows@[i].image_cn@
            &&& shown.items@[i].image_intl@ == rows@[i].image_intl@
            &&& shown.items@[i].image@ == rows@[i].image_cn@
            &&& shown.items@[i].expose_ports@ == rows@[i].expose_ports@
            &&& shown.items@[i].probe_port == rows@[i].probe_port
        }),
{
    assert(items_model(shown.items@).len() == shown.items@.len());
    if let Some(rows) = rows {
        if 0 <= i < rows@.len() {
            lemma_every_row_is_shown(records_model(rows@), i);
            assert(items_model(shown.items@)[i] == shown.items@[i].model());
            assert(records_model(rows@)[i] == rows@[i].model());
        }
    }
}

/// A request that names neither is probed at the root and has a writable layer of a
/// gigabyte.
pub proof fn lemma_defaults(path: String, size: String)
    requires
        call_ensures(default_probe_path, (), path),
        call_ensures(default_writable_layer_size, (), size),
    ensures
        path@ == "/"@,
        size@ == "1G"@,
{
}

} // verus!
