//! Which template an example runs on.
//!
//! The search alternates with requests to the template service, so it is a state
//! machine: a [`Search`] says what it wants to know, and goes on with the reply.

use vstd::prelude::*;
use vstd::string::StringExecFns;

use crate::registry;
use crate::store;
use crate::store::{RecordModel, StoreTemplateRecord};
use crate::text;

verus! {

// ----------------------------------------------------------------------- types

/// A template, as the template service lists it.
pub struct TemplateInfo {
    pub template_id: String,
    pub status: String,
    /// The image that the template was made from.
    pub image_info: Option<String>,
}

/// A part of a search that is still to be done.
pub enum Task {
    /// Take the first of these that is valid.
    Try(Vec<String>),
    /// Take a ready template with the image of this catalog item.
    MatchItem(String),
    /// Take a ready template with this image.
    MatchImage(String),
    /// Take the first listed template that is ready and valid.
    AnyListed,
}

/// A search for a template.
pub struct Search {
    /// What is still to be done, in order.
    pub tasks: Vec<Task>,
    /// Whether an empty identifier counts as none.
    pub skip_empty: bool,
    /// What was found.
    pub found: Option<String>,
}

/// What a search wants next.
pub enum Ask {
    /// Whether the template service knows this template.
    Validate(String),
    /// The templates.
    ListTemplates,
    /// The rows of the store catalog.
    ListCatalog,
    /// Nothing: this is what came of it.
    Done(Option<String>),
}

/// What a search is told. A list is absent where it could not be had.
pub enum Reply {
    Valid(bool),
    Templates(Option<Vec<TemplateInfo>>),
    Catalog(Option<Vec<StoreTemplateRecord>>),
}

/// What a [`TemplateInfo`] holds.
pub struct TemplateModel {
    pub template_id: Seq<char>,
    pub status: Seq<char>,
    pub image_info: Option<Seq<char>>,
}

/// What a [`Task`] holds.
pub enum TaskModel {
    Try(Seq<Seq<char>>),
    MatchItem(Seq<char>),
    MatchImage(Seq<char>),
    AnyListed,
}

/// What a [`Search`] holds.
pub struct SearchModel {
    pub tasks: Seq<TaskModel>,
    pub skip_empty: bool,
    pub found: Option<Seq<char>>,
}

/// What an [`Ask`] holds.
pub enum AskModel {
    Validate(Seq<char>),
    ListTemplates,
    ListCatalog,
    Done(Option<Seq<char>>),
}

/// What a [`Reply`] holds.
pub enum ReplyModel {
    Valid(bool),
    Templates(Option<Seq<TemplateModel>>),
    Catalog(Option<Seq<RecordModel>>),
}

impl TemplateInfo {
    pub open spec fn model(self) -> TemplateModel {
        TemplateModel {
            template_id: self.template_id@,
            status: self.status@,
            image_info: text::opt_text(self.image_info),
        }
    }
}

/// What a row of templates holds.
pub open spec fn templates_model(templates: Seq<TemplateInfo>) -> Seq<TemplateModel> {
    templates.map_values(|template: TemplateInfo| template.model())
}

impl Task {
    pub open spec fn model(self) -> TaskModel {
        match self {
            Task::Try(ids) => TaskModel::Try(text::texts(ids@)),
            Task::MatchItem(item) => TaskModel::MatchItem(item@),
            Task::MatchImage(image) => TaskModel::MatchImage(image@),
            Task::AnyListed => TaskModel::AnyListed,
        }
    }
}

/// What a row of tasks holds.
pub open spec fn tasks_model(tasks: Seq<Task>) -> Seq<TaskModel> {
    tasks.map_values(|task: Task| task.model())
}

impl Search {
    pub open spec fn model(self) -> SearchModel {
        SearchModel {
            tasks: tasks_model(self.tasks@),
            skip_empty: self.skip_empty,
            found: text::opt_text(self.found),
        }
    }
}

impl Ask {
    pub open spec fn model(self) -> AskModel {
        match self {
            Ask::Validate(id) => AskModel::Validate(id@),
            Ask::ListTemplates => AskModel::ListTemplates,
            Ask::ListCatalog => AskModel::ListCatalog,
            Ask::Done(found) => AskModel::Done(text::opt_text(found)),
        }
    }
}

impl Reply {
    pub open spec fn model(self) -> ReplyModel {
        match self {
            Reply::Valid(valid) => ReplyModel::Valid(valid),
            Reply::Templates(templates) => ReplyModel::Templates(
                match templates {
                    Some(templates) => Some(templates_model(templates@)),
                    None => None,
                },
            ),
            Reply::Catalog(rows) => ReplyModel::Catalog(store::rows_model(rows)),
        }
    }
}

// ------------------------------------------------------------------- templates

/// Whether a template can be used at once.
pub open spec fn is_ready(template: TemplateModel) -> bool {
    template.status == "healthy"@ || template.status == "ready"@
}

/// Whether a template can be used at once and was made from that image.
pub open spec fn matches_image(template: TemplateModel, image: Seq<char>) -> bool {
    is_ready(template) && template.image_info == Some(image)
}

/// The first template that can be used at once and was made from that image.
pub open spec fn first_match(templates: Seq<TemplateModel>, image: Seq<char>) -> Option<Seq<char>>
    decreases templates.len(),
{
    if templates.len() == 0 {
        None
    } else if matches_image(templates[0], image) {
        Some(templates[0].template_id)
    } else {
        first_match(templates.drop_first(), image)
    }
}

/// The identifiers of the templates that can be used at once.
pub open spec fn ready_ids(templates: Seq<TemplateModel>) -> Seq<Seq<char>>
    decreases templates.len(),
{
    if templates.len() == 0 {
        seq![]
    } else if is_ready(templates.last()) {
        ready_ids(templates.drop_last()).push(templates.last().template_id)
    } else {
        ready_ids(templates.drop_last())
    }
}

/// The image of the first row with that identifier.
pub open spec fn row_image(rows: Seq<RecordModel>, item: Seq<char>) -> Option<Seq<char>>
    decreases rows.len(),
{
    if rows.len() == 0 {
        None
    } else if rows[0].item_id == item {
        Some(rows[0].image_cn)
    } else {
        row_image(rows.drop_first(), item)
    }
}

/// The image of the first item of the built-in catalog with that identifier.
pub open spec fn item_image(items: Seq<store::ItemModel>, item: Seq<char>) -> Option<Seq<char>>
    decreases items.len(),
{
    if items.len() == 0 {
        None
    } else if items[0].id == item {
        Some(items[0].image_cn)
    } else {
        item_image(items.drop_first(), item)
    }
}

fn ready(template: &TemplateInfo) -> (r: bool)
    ensures
        r == is_ready(template.model()),
{
    text::same(template.status.as_str(), "healthy") || text::same(
        template.status.as_str(),
        "ready",
    )
}

fn find_match(templates: &Vec<TemplateInfo>, image: &str) -> (r: Option<String>)
    ensures
        text::opt_text(r) == first_match(templates_model(templates@), image@),
{
    let ghost all = templates_model(templates@);
    let mut i: usize = 0;
    assert(all.skip(0) =~= all);
    while i < templates.len()
        invariant
            i <= templates@.len() == all.len(),
            all == templates_model(templates@),
            first_match(all, image@) == first_match(all.skip(i as int), image@),
        decreases templates.len() - i,
    {
        assert(all.skip(i as int).drop_first() =~= all.skip(i + 1));
        let template = &templates[i];
        assert(all.skip(i as int)[0] == template.model());
        if ready(template) {
            if let Some(info) = &template.image_info {
                if text::same(info.as_str(), image) {
                    return Some(template.template_id.clone());
                }
            }
        }
        i += 1;
    }
    None
}

fn list_ready_ids(templates: &Vec<TemplateInfo>) -> (r: Vec<String>)
    ensures
        text::texts(r@) == ready_ids(templates_model(templates@)),
{
    let ghost all = templates_model(templates@);
    let mut out: Vec<String> = Vec::new();
    let mut i: usize = 0;
    assert(all.take(0) =~= seq![]);
    while i < templates.len()
        invariant
            i <= templates@.len() == all.len(),
            all == templates_model(templates@),
            text::texts(out@) =~= ready_ids(all.take(i as int)),
        decreases templates.len() - i,
    {
        assert(all.take(i + 1).drop_last() =~= all.take(i as int));
        assert(all.take(i + 1).last() == templates@[i as int].model());
        if ready(&templates[i]) {
            let ghost earlier = out@;
            out.push(templates[i].template_id.clone());
            assert(text::texts(out@) =~= text::texts(earlier).push(out@.last()@));
        }
        i += 1;
    }
    assert(all.take(i as int) =~= all);
    out
}

fn find_row_image(rows: &Vec<StoreTemplateRecord>, item: &str) -> (r: Option<String>)
    ensures
        text::opt_text(r) == row_image(store::records_model(rows@), item@),
{
    let ghost all = store::records_model(rows@);
    let mut i: usize = 0;
    assert(all.skip(0) =~= all);
    while i < rows.len()
        invariant
            i <= rows@.len() == all.len(),
            all == store::records_model(rows@),
            row_image(all, item@) == row_image(all.skip(i as int), item@),
        decreases rows.len() - i,
    {
        assert(all.skip(i as int).drop_first() =~= all.skip(i + 1));
        assert(all.skip(i as int)[0] == rows@[i as int].model());
        if text::same(rows[i].item_id.as_str(), item) {
            return Some(rows[i].image_cn.clone());
        }
        i += 1;
    }
    None
}

fn find_item_image(item: &str) -> (r: Option<String>)
    ensures
        text::opt_text(r) == item_image(store::catalog(), item@),
{
    let items = store::fallback_catalog();
    let ghost all = store::items_model(items@);
    let mut i: usize = 0;
    assert(all.skip(0) =~= all);
    while i < items.len()
        invariant
            i <= items@.len() == all.len(),
            all == store::items_model(items@),
            all == store::catalog(),
            item_image(all, item@) == item_image(all.skip(i as int), item@),
        decreases items.len() - i,
    {
        assert(all.skip(i as int).drop_first() =~= all.skip(i + 1));
        assert(all.skip(i as int)[0] == items@[i as int].model());
        if text::same(items[i].id.as_str(), item) {
            return Some(items[i].image_cn.clone());
        }
        i += 1;
    }
    None
}

// ------------------------------------------------------------------ the search

/// The tasks from the first on that has anything to do.
pub open spec fn settled(tasks: Seq<TaskModel>) -> Seq<TaskModel>
    decreases tasks.len(),
{
    if tasks.len() > 0 && tasks[0] == TaskModel::Try(seq![]) {
        settled(tasks.drop_first())
    } else {
        tasks
    }
}

/// What a search wants next.
pub open spec fn asks(search: SearchModel) -> AskModel {
    let tasks = settled(search.tasks);
    if search.found is Some || tasks.len() == 0 {
        AskModel::Done(search.found)
    } else {
        match tasks[0] {
            TaskModel::Try(ids) => AskModel::Validate(ids[0]),
            TaskModel::MatchItem(_) => AskModel::ListCatalog,
            TaskModel::MatchImage(_) => AskModel::ListTemplates,
            TaskModel::AnyListed => AskModel::ListTemplates,
        }
    }
}

/// A search that has come upon a template, with what would be left to do.
pub open spec fn taking(search: SearchModel, id: Seq<char>, rest: Seq<TaskModel>) -> SearchModel {
    if search.skip_empty && id.len() == 0 {
        SearchModel { tasks: rest, ..search }
    } else {
        SearchModel { tasks: rest, found: Some(id), ..search }
    }
}

/// A search that goes on with another task first.
pub open spec fn going_on(search: SearchModel, first: TaskModel, rest: Seq<TaskModel>) -> SearchModel {
    SearchModel { tasks: seq![first] + rest, ..search }
}

/// A search after a reply. A reply to another question changes nothing.
pub open spec fn after(search: SearchModel, reply: ReplyModel) -> SearchModel {
    let tasks = settled(search.tasks);
    if search.found is Some || tasks.len() == 0 {
        search
    } else {
        let rest = tasks.drop_first();
        match (tasks[0], reply) {
            (TaskModel::Try(ids), ReplyModel::Valid(valid)) => if valid {
                taking(search, ids[0], rest)
            } else {
                going_on(search, TaskModel::Try(ids.drop_first()), rest)
            },
            (TaskModel::MatchItem(item), ReplyModel::Catalog(rows)) => match rows {
                Some(rows) => match row_image(rows, item) {
                    Some(image) => going_on(search, TaskModel::MatchImage(image), rest),
                    None => SearchModel { tasks: rest, ..search },
                },
                None => SearchModel { tasks: rest, ..search },
            },
            (TaskModel::MatchImage(image), ReplyModel::Templates(templates)) => match templates {
                Some(templates) => match first_match(templates, image) {
                    Some(id) => taking(search, id, rest),
                    None => SearchModel { tasks: rest, ..search },
                },
                None => SearchModel { tasks: rest, ..search },
            },
            (TaskModel::AnyListed, ReplyModel::Templates(templates)) => match templates {
                Some(templates) => going_on(
                    search,
                    TaskModel::Try(ready_ids(templates)),
                    rest,
                ),
                None => SearchModel { tasks: rest, ..search },
            },
            _ => search,
        }
    }
}

fn is_idle(task: &Task) -> (r: bool)
    ensures
        r == (task.model() == TaskModel::Try(seq![])),
{
    match task {
        Task::Try(ids) => {
            proof {
                if ids@.len() == 0 {
                    assert(text::texts(ids@) =~= seq![]);
                } else {
                    assert(text::texts(ids@).len() != Seq::<Seq<char>>::empty().len());
                }
            }
            ids.len() == 0
        },
        _ => false,
    }
}

impl Search {
    /// The place of the first task that has anything to do.
    fn next_place(&self) -> (r: usize)
        ensures
            r <= self.tasks@.len(),
            settled(self.model().tasks) == self.model().tasks.skip(r as int),
    {
        let ghost all = self.model().tasks;
        let mut i: usize = 0;
        assert(all.skip(0) =~= all);
        while i < self.tasks.len() && is_idle(&self.tasks[i])
            invariant
                i <= self.tasks@.len() == all.len(),
                all == self.model().tasks,
                settled(all) == settled(all.skip(i as int)),
            decreases self.tasks.len() - i,
        {
            assert(all.skip(i as int).drop_first() =~= all.skip(i + 1));
            assert(all.skip(i as int)[0] == self.tasks@[i as int].model());
            i += 1;
        }
        proof {
            if i < all.len() {
                assert(all.skip(i as int)[0] == self.tasks@[i as int].model());
            }
        }
        i
    }

    /// What the search wants next.
    pub fn ask(&self) -> (r: Ask)
        ensures
            r.model() == asks(self.model()),
    {
        if let Some(id) = &self.found {
            return Ask::Done(Some(id.clone()));
        }
        let i: usize = self.next_place();
        if i == self.tasks.len() {
            return Ask::Done(None);
        }
        let ghost tasks = settled(self.model().tasks);
        assert(tasks[0] == self.tasks@[i as int].model());
        match &self.tasks[i] {
            Task::Try(ids) => {
                proof {
                    if ids@.len() == 0 {
                        assert(text::texts(ids@) =~= seq![]);
                        assert(tasks[0] == TaskModel::Try(seq![]));
                        lemma_settled(self.model().tasks);
                    }
                }
                Ask::Validate(ids[0].clone())
            },
            Task::MatchItem(_) => Ask::ListCatalog,
            Task::MatchImage(_) => Ask::ListTemplates,
            Task::AnyListed => Ask::ListTemplates,
        }
    }

    /// Takes a template that the search has come upon.
    fn take(self, id: String) -> (r: Search)
        requires
            self.found is None,
        ensures
            r.model() == taking(self.model(), id@, self.model().tasks),
    {
        let mut next = self;
        if !(next.skip_empty && id.as_str().unicode_len() == 0) {
            next.found = Some(id);
        }
        next
    }

    /// Puts another task first.
    fn put_first(self, task: Task) -> (r: Search)
        ensures
            r.model() == going_on(self.model(), task.model(), self.model().tasks),
    {
        let mut next = self;
        let ghost before = next.tasks@;
        next.tasks.insert(0, task);
        assert(tasks_model(next.tasks@) =~= seq![task.model()] + tasks_model(before));
        next
    }

    /// The search after a reply. A reply to another question changes nothing.
    pub fn after(self, reply: Reply) -> (r: Search)
        ensures
            r.model() == after(self.model(), reply.model()),
    {
        let place: usize = self.next_place();
        if self.found.is_some() || place == self.tasks.len() {
            return self;
        }
        let ghost all = self.model().tasks;
        let ghost tasks = settled(all);
        proof {
            assert(tasks[0] == self.tasks@[place as int].model());
            lemma_settled(all);
        }
        let fits = match (&self.tasks[place], &reply) {
            (Task::Try(_), Reply::Valid(_)) => true,
            (Task::MatchItem(_), Reply::Catalog(_)) => true,
            (Task::MatchImage(_), Reply::Templates(_)) => true,
            (Task::AnyListed, Reply::Templates(_)) => true,
            _ => false,
        };
        if !fits {
            return self;
        }
        let mut next = self;
        let mut rest = next.tasks.split_off(place);
        let ghost before = rest@;
        let task = rest.remove(0);
        next.tasks = rest;
        assert(before =~= self.tasks@.skip(place as int));
        assert(task.model() == tasks[0]);
        assert(tasks_model(rest@) =~= tasks.drop_first());
        let ghost left = next.model();
        assert(left == (SearchModel { tasks: tasks.drop_first(), ..self.model() }));
        match (task, reply) {
            (Task::Try(ids), Reply::Valid(valid)) => {
                let mut ids = ids;
                let ghost tried = ids@;
                proof {
                    if tried.len() == 0 {
                        assert(text::texts(tried) =~= seq![]);
                    }
                }
                let id = ids.remove(0);
                if valid {
                    next.take(id)
                } else {
                    assert(text::texts(ids@) =~= text::texts(tried).drop_first());
                    next.put_first(Task::Try(ids))
                }
            },
            (Task::MatchItem(item), Reply::Catalog(Some(rows))) => {
                match find_row_image(&rows, item.as_str()) {
                    Some(image) => next.put_first(Task::MatchImage(image)),
                    None => next,
                }
            },
            (Task::MatchImage(image), Reply::Templates(Some(templates))) => {
                match find_match(&templates, image.as_str()) {
                    Some(id) => next.take(id),
                    None => next,
                }
            },
            (Task::AnyListed, Reply::Templates(Some(templates))) => {
                let ids = list_ready_ids(&templates);
                next.put_first(Task::Try(ids))
            },
            _ => next,
        }
    }
}

proof fn lemma_settled(tasks: Seq<TaskModel>)
    ensures
        settled(tasks).len() > 0 ==> settled(tasks)[0] != TaskModel::Try(seq![]),
    decreases tasks.len(),
{
    if tasks.len() > 0 && tasks[0] == TaskModel::Try(seq![]) {
        lemma_settled(tasks.drop_first());
    }
}

// -------------------------------------------------------------------- searches

/// A candidate, where there is one.
pub open spec fn given(id: Option<Seq<char>>) -> Seq<Seq<char>> {
    match id {
        Some(id) => seq![id],
        None => seq![],
    }
}

/// A candidate, where there is one that is not blank.
pub open spec fn unless_blank(id: Option<Seq<char>>) -> Seq<Seq<char>> {
    match id {
        Some(id) => if text::is_blank(id) {
            seq![]
        } else {
            seq![id]
        },
        None => seq![],
    }
}

/// A candidate, where there is one that is not empty.
pub open spec fn unless_empty(id: Option<Seq<char>>) -> Seq<Seq<char>> {
    match id {
        Some(id) => if id.len() == 0 {
            seq![]
        } else {
            seq![id]
        },
        None => seq![],
    }
}

/// Where a search for a template starts from.
pub struct Hints {
    /// The template that the request names.
    pub asked: Option<String>,
    /// The configured default template.
    pub configured: Option<String>,
    /// The template that the environment of the server names.
    pub environment: Option<String>,
    /// The catalog item that the scenario wants.
    pub store_item: Option<String>,
}

/// What [`Hints`] hold.
pub struct HintsModel {
    pub asked: Option<Seq<char>>,
    pub configured: Option<Seq<char>>,
    pub environment: Option<Seq<char>>,
    pub store_item: Option<Seq<char>>,
}

impl Hints {
    pub open spec fn model(self) -> HintsModel {
        HintsModel {
            asked: text::opt_text(self.asked),
            configured: text::opt_text(self.configured),
            environment: text::opt_text(self.environment),
            store_item: text::opt_text(self.store_item),
        }
    }
}

/// The look for a template with the image of a built-in catalog item.
pub open spec fn image_task(store_item: Option<Seq<char>>) -> Seq<TaskModel> {
    match store_item {
        Some(item) => match item_image(store::catalog(), item) {
            Some(image) => seq![TaskModel::MatchImage(image)],
            None => seq![],
        },
        None => seq![],
    }
}

/// The search of the public endpoint: the template that the request names, then one
/// with the image that the scenario wants, then the configured template or the one
/// in the environment, then any that can be used at once.
pub open spec fn endpoint_search(hints: HintsModel) -> SearchModel {
    SearchModel {
        tasks: seq![TaskModel::Try(unless_blank(hints.asked))] + image_task(hints.store_item)
            + seq![
            TaskModel::Try(given(hints.configured) + unless_empty(hints.environment)),
            TaskModel::AnyListed,
        ],
        skip_empty: true,
        found: None,
    }
}

/// The look for a template with the image of an item of the stored catalog.
pub open spec fn item_task(store_item: Option<Seq<char>>, has_store: bool) -> Seq<TaskModel> {
    match store_item {
        Some(item) => if has_store {
            seq![TaskModel::MatchItem(item)]
        } else {
            seq![]
        },
        None => seq![],
    }
}

/// The search of the example service: the template that the request names, the
/// configured one, the one in the environment, then one with the image that the
/// stored catalog has for the scenario, then any that can be used at once.
pub open spec fn service_search(hints: HintsModel, has_store: bool) -> SearchModel {
    SearchModel {
        tasks: seq![
            TaskModel::Try(
                unless_blank(hints.asked) + given(hints.configured) + unless_empty(
                    hints.environment,
                ),
            ),
        ] + item_task(hints.store_item, has_store) + seq![TaskModel::AnyListed],
        skip_empty: false,
        found: None,
    }
}

fn add_unless_blank(ids: &mut Vec<String>, id: Option<String>)
    ensures
        text::texts(final(ids)@) == text::texts(old(ids)@) + unless_blank(text::opt_text(id)),
{
    let ghost before = ids@;
    if let Some(id) = id {
        if !text::blank(id.as_str()) {
            ids.push(id);
        }
    }
    assert(text::texts(ids@) =~= text::texts(before) + unless_blank(text::opt_text(id)));
}

fn add_given(ids: &mut Vec<String>, id: Option<String>)
    ensures
        text::texts(final(ids)@) == text::texts(old(ids)@) + given(text::opt_text(id)),
{
    let ghost before = ids@;
    if let Some(id) = id {
        ids.push(id);
    }
    assert(text::texts(ids@) =~= text::texts(before) + given(text::opt_text(id)));
}

fn add_unless_empty(ids: &mut Vec<String>, id: Option<String>)
    ensures
        text::texts(final(ids)@) == text::texts(old(ids)@) + unless_empty(text::opt_text(id)),
{
    let ghost before = ids@;
    if let Some(id) = id {
        if id.as_str().unicode_len() != 0 {
            ids.push(id);
        }
    }
    assert(text::texts(ids@) =~= text::texts(before) + unless_empty(text::opt_text(id)));
}

/// The search of the public endpoint.
pub fn start_endpoint_search(hints: Hints) -> (r: Search)
    ensures
        r.model() == endpoint_search(hints.model()),
{
    let ghost model = hints.model();
    let mut asked: Vec<String> = Vec::new();
    add_unless_blank(&mut asked, hints.asked);
    let mut configured: Vec<String> = Vec::new();
    add_given(&mut configured, hints.configured);
    add_unless_empty(&mut configured, hints.environment);
    assert(text::texts(asked@) =~= unless_blank(model.asked));
    assert(text::texts(configured@) =~= given(model.configured) + unless_empty(model.environment));
    let mut tasks: Vec<Task> = Vec::new();
    tasks.push(Task::Try(asked));
    if let Some(item) = hints.store_item {
        if let Some(image) = find_item_image(item.as_str()) {
            tasks.push(Task::MatchImage(image));
        }
    }
    tasks.push(Task::Try(configured));
    tasks.push(Task::AnyListed);
    assert(tasks_model(tasks@) =~= endpoint_search(model).tasks);
    Search { tasks, skip_empty: true, found: None }
}

/// The search of the example service, with or without a store.
pub fn start_service_search(hints: Hints, has_store: bool) -> (r: Search)
    ensures
        r.model() == service_search(hints.model(), has_store),
{
    let ghost model = hints.model();
    let mut ids: Vec<String> = Vec::new();
    add_unless_blank(&mut ids, hints.asked);
    add_given(&mut ids, hints.configured);
    add_unless_empty(&mut ids, hints.environment);
    assert(text::texts(ids@) =~= unless_blank(model.asked) + given(model.configured)
        + unless_empty(model.environment));
    let mut tasks: Vec<Task> = Vec::new();
    tasks.push(Task::Try(ids));
    if let Some(item) = hints.store_item {
        if has_store {
            tasks.push(Task::MatchItem(item));
        }
    }
    tasks.push(Task::AnyListed);
    assert(tasks_model(tasks@) =~= service_search(model, has_store).tasks);
    Search { tasks, skip_empty: false, found: None }
}

/// What a request is told for which no template was found.
pub open spec fn no_template() -> Seq<char> {
    "No template ID configured. Set CUBE_TEMPLATE_ID, configure a default template, or create a template first."@
}

/// What a request is told for which no template was found.
pub fn no_template_message() -> (r: String)
    ensures
        r@ == no_template(),
{
    String::from_str(
        "No template ID configured. Set CUBE_TEMPLATE_ID, configure a default template, or create a template first.",
    )
}

// ------------------------------------------------------------------------ laws

/// What the template service and the store say, as long as it does not change:
/// which identifiers are valid, and the two lists where they can be had.
pub struct World {
    pub valid: spec_fn(Seq<char>) -> bool,
    pub templates: Option<Seq<TemplateModel>>,
    pub rows: Option<Seq<RecordModel>>,
}

/// The first valid identifier.
pub open spec fn first_valid(ids: Seq<Seq<char>>, valid: spec_fn(Seq<char>) -> bool) -> Option<
    Seq<char>,
>
    decreases ids.len(),
{
    if ids.len() == 0 {
        None
    } else if valid(ids[0]) {
        Some(ids[0])
    } else {
        first_valid(ids.drop_first(), valid)
    }
}

/// The template that matches an image.
pub open spec fn image_result(image: Seq<char>, world: World) -> Option<Seq<char>> {
    match world.templates {
        Some(templates) => first_match(templates, image),
        None => None,
    }
}

/// The template that a task comes upon.
pub open spec fn task_result(task: TaskModel, world: World) -> Option<
    Seq<char>,
> {
    match task {
        TaskModel::Try(ids) => first_valid(ids, world.valid),
        TaskModel::MatchItem(item) => match world.rows {
            Some(rows) => match row_image(rows, item) {
                Some(image) => image_result(image, world),
                None => None,
            },
            None => None,
        },
        TaskModel::MatchImage(image) => image_result(image, world),
        TaskModel::AnyListed => match world.templates {
            Some(templates) => first_valid(ready_ids(templates), world.valid),
            None => None,
        },
    }
}

/// The template of the first task that comes upon one, where it is not an empty
/// identifier that counts as none.
pub open spec fn outcome_of(
    tasks: Seq<TaskModel>,
    skip_empty: bool,
    world: World,
) -> Option<Seq<char>>
    decreases tasks.len(),
{
    if tasks.len() == 0 {
        None
    } else {
        let rest = outcome_of(tasks.drop_first(), skip_empty, world);
        match task_result(tasks[0], world) {
            Some(id) => if skip_empty && id.len() == 0 {
                rest
            } else {
                Some(id)
            },
            None => rest,
        }
    }
}

/// What comes of a search.
pub open spec fn outcome(search: SearchModel, world: World) -> Option<Seq<char>> {
    match search.found {
        Some(id) => Some(id),
        None => outcome_of(search.tasks, search.skip_empty, world),
    }
}

/// The reply to what a search wants.
pub open spec fn reply_in(world: World, ask: AskModel) -> ReplyModel {
    match ask {
        AskModel::Validate(id) => ReplyModel::Valid((world.valid)(id)),
        AskModel::ListTemplates => ReplyModel::Templates(world.templates),
        AskModel::ListCatalog => ReplyModel::Catalog(world.rows),
        AskModel::Done(_) => ReplyModel::Valid(false),
    }
}

/// A search after so many replies.
pub open spec fn after_replies(search: SearchModel, world: World, n: nat) -> SearchModel
    decreases n,
{
    if n == 0 {
        search
    } else {
        after_replies(after(search, reply_in(world, asks(search))), world, (n - 1) as nat)
    }
}

/// How many lists and rounds of candidates a search has before it at most.
pub open spec fn weight(tasks: Seq<TaskModel>) -> nat
    decreases tasks.len(),
{
    if tasks.len() == 0 {
        0
    } else {
        weight(tasks.drop_first()) + match tasks[0] {
            TaskModel::Try(_) => 1nat,
            TaskModel::MatchImage(_) => 1nat,
            TaskModel::MatchItem(_) => 2nat,
            TaskModel::AnyListed => 2nat,
        }
    }
}

/// How many candidates a search has before it.
pub open spec fn id_count(tasks: Seq<TaskModel>) -> nat
    decreases tasks.len(),
{
    if tasks.len() == 0 {
        0
    } else {
        id_count(tasks.drop_first()) + match tasks[0] {
            TaskModel::Try(ids) => ids.len(),
            _ => 0nat,
        }
    }
}

proof fn lemma_settled_keeps(
    tasks: Seq<TaskModel>,
    skip_empty: bool,
    world: World,
)
    ensures
        outcome_of(settled(tasks), skip_empty, world) == outcome_of(
            tasks,
            skip_empty,
            world,
        ),
        weight(settled(tasks)) <= weight(tasks),
        id_count(settled(tasks)) <= id_count(tasks),
    decreases tasks.len(),
{
    if tasks.len() > 0 && tasks[0] == TaskModel::Try(seq![]) {
        lemma_settled_keeps(tasks.drop_first(), skip_empty, world);
        assert(first_valid(seq![], world.valid) is None);
    }
}

/// A reply changes nothing about what comes of a search.
pub proof fn lemma_reply_keeps_outcome(search: SearchModel, world: World)
    ensures
        outcome(after(search, reply_in(world, asks(search))), world) == outcome(search, world),
{
    let tasks = settled(search.tasks);
    lemma_settled(search.tasks);
    lemma_settled_keeps(search.tasks, search.skip_empty, world);
    if search.found is None && tasks.len() > 0 {
        let next = after(search, reply_in(world, asks(search)));
        let rest = tasks.drop_first();
        if next.tasks.len() > 0 {
            assert((seq![next.tasks[0]] + rest).drop_first() =~= rest);
        }
        if let TaskModel::Try(ids) = tasks[0] {
            if ids.len() == 0 {
                assert(ids =~= seq![]);
            }
        }
    }
}

/// A reply to what a search wants brings it nearer to its end.
pub proof fn lemma_reply_goes_on(search: SearchModel, world: World)
    requires
        !(asks(search) is Done),
    ensures
        ({
            let next = after(search, reply_in(world, asks(search)));
            ||| weight(next.tasks) < weight(search.tasks)
            ||| weight(next.tasks) == weight(search.tasks) && id_count(next.tasks) < id_count(
                search.tasks,
            )
        }),
{
    let tasks = settled(search.tasks);
    lemma_settled(search.tasks);
    lemma_settled_keeps(search.tasks, search.skip_empty, world);
    let next = after(search, reply_in(world, asks(search)));
    let rest = tasks.drop_first();
    if next.tasks.len() > 0 {
        assert((seq![next.tasks[0]] + rest).drop_first() =~= rest);
    }
    if let TaskModel::Try(ids) = tasks[0] {
        if ids.len() == 0 {
            assert(ids =~= seq![]);
        }
    }
}

/// A search that is over has come to its outcome.
pub proof fn lemma_over_is_outcome(search: SearchModel, world: World)
    ensures
        asks(search) matches AskModel::Done(found) ==> found == outcome(search, world),
{
    lemma_settled_keeps(search.tasks, search.skip_empty, world);
}

/// A search that is answered ends, with the template of the first task that comes
/// upon one.
pub proof fn lemma_search_ends_with_outcome(search: SearchModel, world: World)
    ensures
        exists|n: nat| #[trigger]
            asks(after_replies(search, world, n)) == AskModel::Done(outcome(search, world)),
    decreases weight(search.tasks), id_count(search.tasks),
{
    if asks(search) is Done {
        lemma_over_is_outcome(search, world);
        assert(asks(after_replies(search, world, 0)) == AskModel::Done(outcome(search, world)));
    } else {
        let next = after(search, reply_in(world, asks(search)));
        lemma_reply_goes_on(search, world);
        lemma_search_ends_with_outcome(next, world);
        lemma_reply_keeps_outcome(search, world);
        let n = choose|n: nat| #[trigger]
            asks(after_replies(next, world, n)) == AskModel::Done(outcome(next, world));
        assert(asks(after_replies(search, world, n + 1)) == AskModel::Done(outcome(search, world)));
    }
}

proof fn lemma_first_valid(ids: Seq<Seq<char>>, valid: spec_fn(Seq<char>) -> bool)
    ensures
        match first_valid(ids, valid) {
            Some(id) => valid(id),
            None => forall|k: int| 0 <= k < ids.len() ==> !valid(#[trigger] ids[k]),
        },
    decreases ids.len(),
{
    if ids.len() > 0 && !valid(ids[0]) {
        let rest = ids.drop_first();
        lemma_first_valid(rest, valid);
        assert forall|k: int| first_valid(ids, valid) is None && 0 <= k < ids.len() implies !valid(
            #[trigger] ids[k],
        ) by {
            if k > 0 {
                assert(rest[k - 1] == ids[k]);
            }
        }
    }
}

proof fn lemma_first_valid_skips(
    first: Seq<Seq<char>>,
    rest: Seq<Seq<char>>,
    valid: spec_fn(Seq<char>) -> bool,
)
    requires
        first_valid(first, valid) is None,
    ensures
        first_valid(first + rest, valid) == first_valid(rest, valid),
    decreases first.len(),
{
    if first.len() == 0 {
        assert(first + rest =~= rest);
    } else {
        assert((first + rest).drop_first() =~= first.drop_first() + rest);
        lemma_first_valid_skips(first.drop_first(), rest, valid);
    }
}

proof fn lemma_first_match(templates: Seq<TemplateModel>, image: Seq<char>)
    ensures
        match first_match(templates, image) {
            Some(id) => exists|k: int|
                0 <= k < templates.len() && matches_image(#[trigger] templates[k], image)
                    && templates[k].template_id == id,
            None => true,
        },
    decreases templates.len(),
{
    if templates.len() > 0 {
        if matches_image(templates[0], image) {
            assert(templates[0].template_id == first_match(templates, image)->0);
        } else {
            let rest = templates.drop_first();
            lemma_first_match(rest, image);
            if let Some(id) = first_match(rest, image) {
                let k = choose|k: int|
                    0 <= k < rest.len() && matches_image(#[trigger] rest[k], image)
                        && rest[k].template_id == id;
                assert(rest[k] == templates[k + 1]);
            }
        }
    }
}

/// Whether a template can be run on: the template service knows it, or lists it as
/// one that can be used at once.
pub open spec fn is_usable(id: Seq<char>, world: World) -> bool {
    ||| (world.valid)(id)
    ||| world.templates matches Some(templates) && exists|k: int|
        0 <= k < templates.len() && is_ready(#[trigger] templates[k]) && templates[k].template_id
            == id
}

/// A search comes upon nothing but templates that can be run on.
pub proof fn lemma_outcome_is_usable(search: SearchModel, world: World)
    requires
        search.found is None,
    ensures
        outcome(search, world) matches Some(id) ==> is_usable(id, world),
    decreases search.tasks.len(),
{
    if search.tasks.len() > 0 {
        lemma_outcome_is_usable(SearchModel { tasks: search.tasks.drop_first(), ..search }, world);
        let task = search.tasks[0];
        if let TaskModel::Try(ids) = task {
            lemma_first_valid(ids, world.valid);
        }
        if let Some(templates) = world.templates {
            lemma_first_valid(ready_ids(templates), world.valid);
            if let TaskModel::MatchImage(image) = task {
                lemma_first_match(templates, image);
            }
            if let TaskModel::MatchItem(item) = task {
                if let Some(rows) = world.rows {
                    if let Some(image) = row_image(rows, item) {
                        lemma_first_match(templates, image);
                    }
                }
            }
        }
    }
}

/// A valid template that the request names is taken, whatever is configured.
pub proof fn lemma_asked_template_comes_first(
    hints: HintsModel,
    has_store: bool,
    world: World,
    id: Seq<char>,
)
    requires
        hints.asked == Some(id),
        !text::is_blank(id),
        (world.valid)(id),
    ensures
        outcome(endpoint_search(hints), world) == Some(id),
        outcome(service_search(hints, has_store), world) == Some(id),
{
    assert(id.len() > 0) by {
        if id.len() == 0 {
            assert(text::is_blank(id));
        }
    }
    let asked = unless_blank(hints.asked);
    assert(asked[0] == id);
    assert(endpoint_search(hints).tasks[0] == TaskModel::Try(asked));
    let all = asked + given(hints.configured) + unless_empty(hints.environment);
    assert(all[0] == id);
    assert(service_search(hints, has_store).tasks[0] == TaskModel::Try(all));
}

/// At the public endpoint, a template with the image that the scenario wants comes
/// before the configured one, unless the request names a valid template.
pub proof fn lemma_wanted_image_comes_before_defaults(
    hints: HintsModel,
    world: World,
    item: Seq<char>,
    image: Seq<char>,
    id: Seq<char>,
)
    requires
        first_valid(unless_blank(hints.asked), world.valid) is None,
        hints.store_item == Some(item),
        item_image(store::catalog(), item) == Some(image),
        image_result(image, world) == Some(id),
        id.len() > 0,
    ensures
        outcome(endpoint_search(hints), world) == Some(id),
{
    let tasks = endpoint_search(hints).tasks;
    assert(tasks[0] == TaskModel::Try(unless_blank(hints.asked)));
    assert(tasks.drop_first()[0] == TaskModel::MatchImage(image));
    reveal_with_fuel(outcome_of, 3);
}

/// In the example service, the configured template comes before one that the
/// catalog gives, unless the request names a valid template.
pub proof fn lemma_configured_comes_before_catalog(
    hints: HintsModel,
    has_store: bool,
    world: World,
    id: Seq<char>,
)
    requires
        first_valid(unless_blank(hints.asked), world.valid) is None,
        hints.configured == Some(id),
        (world.valid)(id),
    ensures
        outcome(service_search(hints, has_store), world) == Some(id),
{
    let asked = unless_blank(hints.asked);
    let configured = given(hints.configured) + unless_empty(hints.environment);
    lemma_first_valid_skips(asked, configured, world.valid);
    assert(asked + given(hints.configured) + unless_empty(hints.environment) =~= asked
        + configured);
    assert(configured[0] == id);
    assert(service_search(hints, has_store).tasks[0] == TaskModel::Try(asked + configured));
}

proof fn lemma_ready_id_listed(templates: Seq<TemplateModel>, k: int)
    requires
        0 <= k < templates.len(),
        is_ready(templates[k]),
    ensures
        exists|j: int|
            0 <= j < ready_ids(templates).len() && #[trigger] ready_ids(templates)[j]
                == templates[k].template_id,
    decreases templates.len(),
{
    let before = templates.drop_last();
    if k == templates.len() - 1 {
        assert(ready_ids(templates)[ready_ids(before).len() as int] == templates[k].template_id);
    } else {
        lemma_ready_id_listed(before, k);
        assert(before[k] == templates[k]);
        let j = choose|j: int|
            0 <= j < ready_ids(before).len() && #[trigger] ready_ids(before)[j]
                == before[k].template_id;
        assert(ready_ids(templates)[j] == ready_ids(before)[j]);
    }
}

/// A search that ends with its look through the listed templates comes upon nothing
/// only where none of those that can be used at once is valid. An empty identifier
/// that counts as none must not be valid.
pub proof fn lemma_nothing_found_means_nothing_usable(
    search: SearchModel,
    world: World,
    templates: Seq<TemplateModel>,
    k: int,
)
    requires
        search.tasks.len() > 0,
        search.tasks.last() == TaskModel::AnyListed,
        search.skip_empty ==> !(world.valid)(seq![]),
        outcome(search, world) is None,
        world.templates == Some(templates),
        0 <= k < templates.len(),
        is_ready(templates[k]),
    ensures
        !(world.valid)(templates[k].template_id),
    decreases search.tasks.len(),
{
    if search.tasks.len() > 1 {
        let rest = SearchModel { tasks: search.tasks.drop_first(), ..search };
        assert(rest.tasks.last() == search.tasks.last());
        lemma_nothing_found_means_nothing_usable(rest, world, templates, k);
    } else {
        let ids = ready_ids(templates);
        lemma_first_valid(ids, world.valid);
        lemma_ready_id_listed(templates, k);
        let j = choose|j: int|
            0 <= j < ready_ids(templates).len() && #[trigger] ready_ids(templates)[j]
                == templates[k].template_id;
        assert(ids[j] == templates[k].template_id);
        if let Some(id) = first_valid(ids, world.valid) {
            if id.len() == 0 {
                assert(id =~= seq![]);
            }
        }
    }
}

proof fn lemma_none_ready(templates: Seq<TemplateModel>, image: Seq<char>)
    requires
        forall|k: int| 0 <= k < templates.len() ==> !is_ready(#[trigger] templates[k]),
    ensures
        first_match(templates, image) is None,
        ready_ids(templates) == Seq::<Seq<char>>::empty(),
    decreases templates.len(),
{
    if templates.len() > 0 {
        let tail = templates.drop_first();
        let front = templates.drop_last();
        assert forall|k: int| 0 <= k < tail.len() implies !is_ready(#[trigger] tail[k]) by {
            assert(tail[k] == templates[k + 1]);
        }
        assert forall|k: int| 0 <= k < front.len() implies !is_ready(#[trigger] front[k]) by {
            assert(front[k] == templates[k]);
        }
        lemma_none_ready(tail, image);
        lemma_none_ready(front, image);
        assert(!is_ready(templates[0]));
        assert(!is_ready(templates.last()));
    }
}

/// A listed template that cannot be used at once is never taken for being listed:
/// where no candidate is valid and no listed template is ready, both searches come
/// upon nothing.
pub proof fn lemma_unready_templates_are_not_taken(
    hints: HintsModel,
    has_store: bool,
    world: World,
)
    requires
        first_valid(unless_blank(hints.asked), world.valid) is None,
        first_valid(given(hints.configured) + unless_empty(hints.environment), world.valid) is None,
        world.templates matches Some(templates) ==> forall|k: int|
            0 <= k < templates.len() ==> !is_ready(#[trigger] templates[k]),
    ensures
        outcome(endpoint_search(hints), world) is None,
        outcome(service_search(hints, has_store), world) is None,
{
    let asked = unless_blank(hints.asked);
    let configured = given(hints.configured) + unless_empty(hints.environment);
    lemma_first_valid_skips(asked, configured, world.valid);
    assert(asked + given(hints.configured) + unless_empty(hints.environment) =~= asked
        + configured);
    assert forall|image: Seq<char>| #[trigger] image_result(image, world) is None by {
        if let Some(templates) = world.templates {
            lemma_none_ready(templates, image);
        }
    }
    if let Some(templates) = world.templates {
        lemma_none_ready(templates, seq![]);
    }
    assert(first_valid(seq![], world.valid) is None);
    assert forall|task: TaskModel|
        task == TaskModel::AnyListed || task is MatchImage || task is MatchItem implies #[trigger] task_result(
        task,
        world,
    ) is None by {}
    let endpoint = endpoint_search(hints).tasks;
    lemma_no_result(endpoint, true, world);
    let service = service_search(hints, has_store).tasks;
    lemma_no_result(service, false, world);
}

proof fn lemma_no_result(tasks: Seq<TaskModel>, skip_empty: bool, world: World)
    requires
        forall|k: int| 0 <= k < tasks.len() ==> task_result(#[trigger] tasks[k], world) is None,
    ensures
        outcome_of(tasks, skip_empty, world) is None,
    decreases tasks.len(),
{
    if tasks.len() > 0 {
        let rest = tasks.drop_first();
        assert forall|k: int| 0 <= k < rest.len() implies task_result(
            #[trigger] rest[k],
            world,
        ) is None by {
            assert(rest[k] == tasks[k + 1]);
        }
        lemma_no_result(rest, skip_empty, world);
    }
}

/// Every scenario that is offered wants the image of an item of the built-in
/// catalog.
pub proof fn lemma_scenarios_want_catalog_items(i: int)
    requires
        0 <= i < registry::registry().len(),
        !registry::registry()[i].hidden,
    ensures
        registry::registry()[i].store_item_id matches Some(item) && item_image(
            store::catalog(),
            item@,
        ) is Some,
{
    store::lemma_catalog_is_sound();
    reveal_with_fuel(item_image, 6);
    let items = store::catalog();
    assert(items.drop_first()[0] == items[1]);
    assert(items.drop_first().drop_first()[0] == items[2]);
    assert(items.drop_first().drop_first().drop_first()[0] == items[3]);
    assert(items.drop_first().drop_first().drop_first().drop_first()[0] == items[4]);
    assert(items[0].id == "sandbox-code"@);
    assert(items[1].id == "sandbox-browser"@);
    assert(items[4].id == "sandbox-nginx"@);
}

// ---------------------------------------------------------- the order of a search

/// Whether a request names a template that is valid.
pub open spec fn names_valid(hints: HintsModel, world: World) -> bool {
    hints.asked matches Some(id) && !text::is_blank(id) && (world.valid)(id)
}

/// Whether the configured template is valid.
pub open spec fn configures_valid(hints: HintsModel, world: World) -> bool {
    hints.configured matches Some(id) && (world.valid)(id)
}

/// Whether the environment names a template that is valid.
pub open spec fn environment_valid(hints: HintsModel, world: World) -> bool {
    hints.environment matches Some(id) && id.len() > 0 && (world.valid)(id)
}

/// Whether there is a listed template in that place that is healthy or ready.
pub open spec fn lists_usable(world: World, k: int) -> bool {
    world.templates matches Some(templates) && 0 <= k < templates.len() && (templates[k].status
        == "healthy"@ || templates[k].status == "ready"@)
}

/// Whether the listed template in that place is healthy or ready and was made from
/// that image.
pub open spec fn lists_image(world: World, image: Seq<char>, k: int) -> bool {
    lists_usable(world, k) && world.templates->0[k].image_info == Some(image)
}

/// Whether the listed template in that place is healthy or ready, and valid.
pub open spec fn lists_valid(world: World, k: int) -> bool {
    lists_usable(world, k) && (world.valid)(world.templates->0[k].template_id)
}

/// Whether a built-in catalog item that the scenario wants has that image.
pub open spec fn wants_built_in(hints: HintsModel, image: Seq<char>) -> bool {
    hints.store_item matches Some(item) && exists|m: int|
        0 <= m < store::catalog().len() && (#[trigger] store::catalog()[m]).id == item
            && store::catalog()[m].image_cn == image
}

/// Whether a row of the stored catalog with the item that the scenario wants has that
/// image.
pub open spec fn wants_stored(hints: HintsModel, world: World, image: Seq<char>) -> bool {
    hints.store_item matches Some(item) && world.rows matches Some(rows) && exists|m: int|
        0 <= m < rows.len() && (#[trigger] rows[m]).item_id == item && rows[m].image_cn == image
}

proof fn lemma_outcome_of_more(
    first: Seq<TaskModel>,
    rest: Seq<TaskModel>,
    skip_empty: bool,
    world: World,
)
    ensures
        outcome_of(first + rest, skip_empty, world) == (match outcome_of(
            first,
            skip_empty,
            world,
        ) {
            Some(id) => Some(id),
            None => outcome_of(rest, skip_empty, world),
        }),
    decreases first.len(),
{
    if first.len() == 0 {
        assert(first + rest =~= rest);
    } else {
        assert((first + rest).drop_first() =~= first.drop_first() + rest);
        lemma_outcome_of_more(first.drop_first(), rest, skip_empty, world);
    }
}

proof fn lemma_outcome_of_one(task: TaskModel, skip_empty: bool, world: World)
    ensures
        outcome_of(seq![task], skip_empty, world) == (match task_result(task, world) {
            Some(id) => if skip_empty && id.len() == 0 {
                None
            } else {
                Some(id)
            },
            None => None,
        }),
{
    assert(seq![task].drop_first() =~= seq![]);
    reveal_with_fuel(outcome_of, 2);
}

proof fn lemma_first_valid_of_two(
    a: Seq<Seq<char>>,
    b: Seq<Seq<char>>,
    valid: spec_fn(Seq<char>) -> bool,
)
    requires
        a.len() <= 1,
        b.len() <= 1,
    ensures
        first_valid(a + b, valid) == (if a.len() > 0 && valid(a[0]) {
            Some(a[0])
        } else if b.len() > 0 && valid(b[0]) {
            Some(b[0])
        } else {
            None
        }),
        first_valid(a, valid) == (if a.len() > 0 && valid(a[0]) {
            Some(a[0])
        } else {
            None
        }),
{
    reveal_with_fuel(first_valid, 3);
    if a.len() > 0 {
        assert((a + b).drop_first() =~= b);
    } else {
        assert(a + b =~= b);
    }
}

proof fn lemma_first_match_is_first(templates: Seq<TemplateModel>, image: Seq<char>, k: int)
    requires
        0 <= k < templates.len(),
        matches_image(templates[k], image),
        forall|j: int| 0 <= j < k ==> !matches_image(#[trigger] templates[j], image),
    ensures
        first_match(templates, image) == Some(templates[k].template_id),
    decreases k,
{
    if k > 0 {
        let rest = templates.drop_first();
        assert(rest[k - 1] == templates[k]);
        assert forall|j: int| 0 <= j < k - 1 implies !matches_image(#[trigger] rest[j], image) by {
            assert(rest[j] == templates[j + 1]);
        }
        assert(!matches_image(templates[0], image));
        lemma_first_match_is_first(rest, image, k - 1);
    }
}

proof fn lemma_no_match(templates: Seq<TemplateModel>, image: Seq<char>)
    requires
        forall|j: int| 0 <= j < templates.len() ==> !matches_image(#[trigger] templates[j], image),
    ensures
        first_match(templates, image) is None,
{
    lemma_first_match(templates, image);
}

proof fn lemma_ready_ids_split(a: Seq<TemplateModel>, b: Seq<TemplateModel>)
    ensures
        ready_ids(a + b) == ready_ids(a) + ready_ids(b),
    decreases b.len(),
{
    if b.len() == 0 {
        assert(a + b =~= a);
        assert(ready_ids(a) + ready_ids(b) =~= ready_ids(a));
    } else {
        assert((a + b).drop_last() =~= a + b.drop_last());
        assert((a + b).last() == b.last());
        lemma_ready_ids_split(a, b.drop_last());
        assert(ready_ids(a + b) =~= ready_ids(a) + ready_ids(b));
    }
}

proof fn lemma_first_usable_is_first(
    templates: Seq<TemplateModel>,
    valid: spec_fn(Seq<char>) -> bool,
    k: int,
)
    requires
        0 <= k <= templates.len(),
        k < templates.len() ==> is_ready(templates[k]) && valid(templates[k].template_id),
        forall|j: int|
            0 <= j < k ==> !(is_ready(#[trigger] templates[j]) && valid(templates[j].template_id)),
    ensures
        first_valid(ready_ids(templates), valid) == (if k < templates.len() {
            Some(templates[k].template_id)
        } else {
            None
        }),
    decreases templates.len(),
{
    reveal_with_fuel(ready_ids, 2);
    if templates.len() > 0 {
        let head = seq![templates[0]];
        let rest = templates.drop_first();
        assert(head + rest =~= templates);
        assert(head.drop_last() =~= seq![]);
        lemma_ready_ids_split(head, rest);
        let ids = ready_ids(templates);
        if is_ready(templates[0]) {
            assert(ready_ids(head) =~= seq![templates[0].template_id]);
            assert(ids[0] == templates[0].template_id);
            assert(ids.drop_first() =~= ready_ids(rest));
        } else {
            assert(ready_ids(head) =~= seq![]);
            assert(ids =~= ready_ids(rest));
        }
        if k > 0 {
            assert forall|j: int| 0 <= j < k - 1 implies !(is_ready(#[trigger] rest[j]) && valid(
                rest[j].template_id,
            )) by {
                assert(rest[j] == templates[j + 1]);
            }
            if k < templates.len() {
                assert(rest[k - 1] == templates[k]);
            }
            assert(!(is_ready(templates[0]) && valid(templates[0].template_id)));
            lemma_first_usable_is_first(rest, valid, k - 1);
        }
    }
}

proof fn lemma_item_image(items: Seq<store::ItemModel>, item: Seq<char>)
    ensures
        match item_image(items, item) {
            Some(image) => exists|m: int|
                0 <= m < items.len() && (#[trigger] items[m]).id == item && items[m].image_cn
                    == image && forall|l: int| 0 <= l < m ==> (#[trigger] items[l]).id != item,
            None => forall|m: int| 0 <= m < items.len() ==> (#[trigger] items[m]).id != item,
        },
    decreases items.len(),
{
    if items.len() > 0 {
        if items[0].id == item {
            assert(items[0].image_cn == item_image(items, item)->0);
        } else {
            let rest = items.drop_first();
            lemma_item_image(rest, item);
            match item_image(items, item) {
                Some(image) => {
                    let m = choose|m: int|
                        0 <= m < rest.len() && (#[trigger] rest[m]).id == item && rest[m].image_cn
                            == image && forall|l: int|
                            0 <= l < m ==> (#[trigger] rest[l]).id != item;
                    assert(items[m + 1] == rest[m]);
                    assert forall|l: int| 0 <= l < m + 1 implies (#[trigger] items[l]).id
                        != item by {
                        if l > 0 {
                            assert(items[l] == rest[l - 1]);
                        }
                    }
                },
                None => {
                    assert forall|m: int| 0 <= m < items.len() implies (#[trigger] items[m]).id
                        != item by {
                        if m > 0 {
                            assert(items[m] == rest[m - 1]);
                        }
                    }
                },
            }
        }
    }
}

proof fn lemma_row_image(rows: Seq<RecordModel>, item: Seq<char>)
    ensures
        match row_image(rows, item) {
            Some(image) => exists|m: int|
                0 <= m < rows.len() && (#[trigger] rows[m]).item_id == item && rows[m].image_cn
                    == image && forall|l: int| 0 <= l < m ==> (#[trigger] rows[l]).item_id != item,
            None => forall|m: int| 0 <= m < rows.len() ==> (#[trigger] rows[m]).item_id != item,
        },
    decreases rows.len(),
{
    if rows.len() > 0 {
        if rows[0].item_id == item {
            assert(rows[0].image_cn == row_image(rows, item)->0);
        } else {
            let rest = rows.drop_first();
            lemma_row_image(rest, item);
            match row_image(rows, item) {
                Some(image) => {
                    let m = choose|m: int|
                        0 <= m < rest.len() && (#[trigger] rest[m]).item_id == item
                            && rest[m].image_cn == image && forall|l: int|
                            0 <= l < m ==> (#[trigger] rest[l]).item_id != item;
                    assert(rows[m + 1] == rest[m]);
                    assert forall|l: int| 0 <= l < m + 1 implies (#[trigger] rows[l]).item_id
                        != item by {
                        if l > 0 {
                            assert(rows[l] == rest[l - 1]);
                        }
                    }
                },
                None => {
                    assert forall|m: int| 0 <= m < rows.len() implies (#[trigger] rows[m]).item_id
                        != item by {
                        if m > 0 {
                            assert(rows[m] == rest[m - 1]);
                        }
                    }
                },
            }
        }
    }
}

/// The outcome of the public endpoint's search, task by task.
proof fn lemma_endpoint_outcome(hints: HintsModel, world: World)
    ensures
        ({
            let named = outcome_of(seq![TaskModel::Try(unless_blank(hints.asked))], true, world);
            let imaged = outcome_of(image_task(hints.store_item), true, world);
            let set = outcome_of(
                seq![TaskModel::Try(given(hints.configured) + unless_empty(hints.environment))],
                true,
                world,
            );
            let listed = outcome_of(seq![TaskModel::AnyListed], true, world);
            outcome(endpoint_search(hints), world) == (if named is Some {
                named
            } else if imaged is Some {
                imaged
            } else if set is Some {
                set
            } else {
                listed
            })
        }),
{
    let a = seq![TaskModel::Try(unless_blank(hints.asked))];
    let b = image_task(hints.store_item);
    let c = seq![TaskModel::Try(given(hints.configured) + unless_empty(hints.environment))];
    let d = seq![TaskModel::AnyListed];
    assert(endpoint_search(hints).tasks =~= a + (b + (c + d)));
    lemma_outcome_of_more(a, b + (c + d), true, world);
    lemma_outcome_of_more(b, c + d, true, world);
    lemma_outcome_of_more(c, d, true, world);
}

/// The outcome of the example service's search, task by task.
proof fn lemma_service_outcome(hints: HintsModel, has_store: bool, world: World)
    ensures
        ({
            let set = outcome_of(
                seq![
                    TaskModel::Try(
                        unless_blank(hints.asked) + given(hints.configured) + unless_empty(
                            hints.environment,
                        ),
                    ),
                ],
                false,
                world,
            );
            let imaged = outcome_of(item_task(hints.store_item, has_store), false, world);
            let listed = outcome_of(seq![TaskModel::AnyListed], false, world);
            outcome(service_search(hints, has_store), world) == (if set is Some {
                set
            } else if imaged is Some {
                imaged
            } else {
                listed
            })
        }),
{
    let a = seq![
        TaskModel::Try(
            unless_blank(hints.asked) + given(hints.configured) + unless_empty(hints.environment),
        ),
    ];
    let b = item_task(hints.store_item, has_store);
    let c = seq![TaskModel::AnyListed];
    assert(service_search(hints, has_store).tasks =~= a + (b + c));
    lemma_outcome_of_more(a, b + c, false, world);
    lemma_outcome_of_more(b, c, false, world);
}

proof fn lemma_nothing_named(hints: HintsModel, world: World)
    requires
        !names_valid(hints, world),
    ensures
        first_valid(unless_blank(hints.asked), world.valid) is None,
        outcome_of(seq![TaskModel::Try(unless_blank(hints.asked))], true, world) is None,
{
    reveal_with_fuel(first_valid, 2);
    lemma_outcome_of_one(TaskModel::Try(unless_blank(hints.asked)), true, world);
}

proof fn lemma_nothing_imaged(hints: HintsModel, world: World)
    requires
        forall|image: Seq<char>, k: int|
            #![trigger lists_image(world, image, k)]
            wants_built_in(hints, image) ==> !lists_image(world, image, k),
    ensures
        outcome_of(image_task(hints.store_item), true, world) is None,
{
    if let Some(item) = hints.store_item {
        lemma_item_image(store::catalog(), item);
        if let Some(image) = item_image(store::catalog(), item) {
            assert(wants_built_in(hints, image));
            if let Some(templates) = world.templates {
                assert forall|j: int| 0 <= j < templates.len() implies !matches_image(
                    #[trigger] templates[j],
                    image,
                ) by {
                    assert(!lists_image(world, image, j));
                }
                lemma_no_match(templates, image);
            }
            lemma_outcome_of_one(TaskModel::MatchImage(image), true, world);
        }
    }
}

/// At the public endpoint, a template with the image that the scenario wants comes
/// next to the one that the request names: the first that is listed as healthy or
/// ready with it, whatever is configured.
pub proof fn lemma_endpoint_takes_the_wanted_image(
    hints: HintsModel,
    world: World,
    image: Seq<char>,
    k: int,
)
    requires
        !names_valid(hints, world),
        wants_built_in(hints, image),
        lists_image(world, image, k),
        forall|j: int| 0 <= j < k ==> !#[trigger] lists_image(world, image, j),
        world.templates->0[k].template_id.len() > 0,
    ensures
        outcome(endpoint_search(hints), world) == Some(world.templates->0[k].template_id),
{
    lemma_nothing_named(hints, world);
    lemma_endpoint_outcome(hints, world);
    let item = hints.store_item->0;
    let templates = world.templates->0;
    let m = choose|m: int|
        0 <= m < store::catalog().len() && (#[trigger] store::catalog()[m]).id == item
            && store::catalog()[m].image_cn == image;
    lemma_item_image(store::catalog(), item);
    store::lemma_catalog_is_sound();
    let l = choose|l: int|
        0 <= l < store::catalog().len() && (#[trigger] store::catalog()[l]).id == item
            && store::catalog()[l].image_cn == item_image(store::catalog(), item)->0;
    assert(l == m);
    assert forall|j: int| 0 <= j < k implies !matches_image(#[trigger] templates[j], image) by {
        assert(!lists_image(world, image, j));
    }
    lemma_first_match_is_first(templates, image, k);
    lemma_outcome_of_one(TaskModel::MatchImage(image), true, world);
}

/// At the public endpoint, the configured template comes before the one in the
/// environment: where the request names no valid template and no template that is
/// healthy or ready has the wanted image, a valid configured template is taken,
/// whatever the environment says.
pub proof fn lemma_endpoint_takes_the_configured(hints: HintsModel, world: World, id: Seq<char>)
    requires
        !names_valid(hints, world),
        forall|image: Seq<char>, k: int|
            #![trigger lists_image(world, image, k)]
            wants_built_in(hints, image) ==> !lists_image(world, image, k),
        hints.configured == Some(id),
        id.len() > 0,
        (world.valid)(id),
    ensures
        outcome(endpoint_search(hints), world) == Some(id),
{
    lemma_nothing_named(hints, world);
    lemma_nothing_imaged(hints, world);
    lemma_endpoint_outcome(hints, world);
    let ids = given(hints.configured) + unless_empty(hints.environment);
    lemma_first_valid_of_two(given(hints.configured), unless_empty(hints.environment), world.valid);
    lemma_outcome_of_one(TaskModel::Try(ids), true, world);
}

/// At the public endpoint, the template in the environment comes after the configured
/// one, and before those that are listed.
pub proof fn lemma_endpoint_takes_the_environment(hints: HintsModel, world: World, id: Seq<char>)
    requires
        !names_valid(hints, world),
        forall|image: Seq<char>, k: int|
            #![trigger lists_image(world, image, k)]
            wants_built_in(hints, image) ==> !lists_image(world, image, k),
        !configures_valid(hints, world),
        hints.environment == Some(id),
        id.len() > 0,
        (world.valid)(id),
    ensures
        outcome(endpoint_search(hints), world) == Some(id),
{
    lemma_nothing_named(hints, world);
    lemma_nothing_imaged(hints, world);
    lemma_endpoint_outcome(hints, world);
    let ids = given(hints.configured) + unless_empty(hints.environment);
    lemma_first_valid_of_two(given(hints.configured), unless_empty(hints.environment), world.valid);
    lemma_outcome_of_one(TaskModel::Try(ids), true, world);
}

/// At the public endpoint, where nothing else is to be had, the first template that is
/// listed as healthy or ready and is valid is taken; and nothing, where there is none.
pub proof fn lemma_endpoint_takes_any_usable(hints: HintsModel, world: World, k: int)
    requires
        !names_valid(hints, world),
        forall|image: Seq<char>, k: int|
            #![trigger lists_image(world, image, k)]
            wants_built_in(hints, image) ==> !lists_image(world, image, k),
        !configures_valid(hints, world),
        !environment_valid(hints, world),
        forall|j: int| 0 <= j < k ==> !#[trigger] lists_valid(world, j),
        lists_valid(world, k) ==> world.templates->0[k].template_id.len() > 0,
    ensures
        lists_valid(world, k) ==> outcome(endpoint_search(hints), world) == Some(
            world.templates->0[k].template_id,
        ),
        world.templates is None || k >= world.templates->0.len() ==> outcome(
            endpoint_search(hints),
            world,
        ) is None,
{
    lemma_nothing_named(hints, world);
    lemma_nothing_imaged(hints, world);
    lemma_endpoint_outcome(hints, world);
    let ids = given(hints.configured) + unless_empty(hints.environment);
    lemma_first_valid_of_two(given(hints.configured), unless_empty(hints.environment), world.valid);
    lemma_outcome_of_one(TaskModel::Try(ids), true, world);
    lemma_outcome_of_one(TaskModel::AnyListed, true, world);
    lemma_first_listed(world, k);
}

proof fn lemma_first_listed(world: World, k: int)
    requires
        forall|j: int| 0 <= j < k ==> !#[trigger] lists_valid(world, j),
    ensures
        lists_valid(world, k) ==> task_result(TaskModel::AnyListed, world) == Some(
            world.templates->0[k].template_id,
        ),
        world.templates is None || k >= world.templates->0.len() ==> task_result(
            TaskModel::AnyListed,
            world,
        ) is None,
{
    if let Some(templates) = world.templates {
        let n = if k > templates.len() {
            templates.len() as int
        } else {
            k
        };
        assert forall|j: int| 0 <= j < n implies !(is_ready(#[trigger] templates[j]) && (
        world.valid)(templates[j].template_id)) by {
            assert(!lists_valid(world, j));
        }
        if n == templates.len() || lists_valid(world, k) {
            if n >= 0 {
                lemma_first_usable_is_first(templates, world.valid, n);
            }
        }
    }
}

/// In the example service, the templates that are named come in this order: the one in
/// the request, the configured one, the one in the environment.
pub proof fn lemma_service_takes_the_first_named(hints: HintsModel, has_store: bool, world: World)
    ensures
        names_valid(hints, world) ==> outcome(service_search(hints, has_store), world)
            == hints.asked,
        !names_valid(hints, world) && configures_valid(hints, world) ==> outcome(
            service_search(hints, has_store),
            world,
        ) == hints.configured,
        !names_valid(hints, world) && !configures_valid(hints, world) && environment_valid(
            hints,
            world,
        ) ==> outcome(service_search(hints, has_store), world) == hints.environment,
{
    lemma_named(hints, world);
    lemma_service_outcome(hints, has_store, world);
}

proof fn lemma_named(hints: HintsModel, world: World)
    ensures
        outcome_of(
            seq![
                TaskModel::Try(
                    unless_blank(hints.asked) + given(hints.configured) + unless_empty(
                        hints.environment,
                    ),
                ),
            ],
            false,
            world,
        ) == (if names_valid(hints, world) {
            hints.asked
        } else if configures_valid(hints, world) {
            hints.configured
        } else if environment_valid(hints, world) {
            hints.environment
        } else {
            None
        }),
{
    let asked = unless_blank(hints.asked);
    let set = given(hints.configured) + unless_empty(hints.environment);
    let ids = asked + given(hints.configured) + unless_empty(hints.environment);
    assert(ids =~= asked + set);
    lemma_outcome_of_one(TaskModel::Try(ids), false, world);
    lemma_first_valid_of_two(given(hints.configured), unless_empty(hints.environment), world.valid);
    if names_valid(hints, world) {
        assert(ids[0] == hints.asked->0);
    } else {
        lemma_nothing_named(hints, world);
        lemma_first_valid_skips(asked, set, world.valid);
    }
}

/// In the example service, where no named template is valid, the first template that
/// is listed as healthy or ready with the image that the stored catalog has for the
/// scenario is taken.
pub proof fn lemma_service_takes_the_stored_image(
    hints: HintsModel,
    world: World,
    m: int,
    k: int,
)
    requires
        !names_valid(hints, world),
        !configures_valid(hints, world),
        !environment_valid(hints, world),
        hints.store_item is Some,
        world.rows is Some,
        0 <= m < world.rows->0.len(),
        world.rows->0[m].item_id == hints.store_item->0,
        forall|l: int| 0 <= l < m ==> (#[trigger] world.rows->0[l]).item_id != hints.store_item->0,
        lists_image(world, world.rows->0[m].image_cn, k),
        forall|j: int|
            0 <= j < k ==> !#[trigger] lists_image(world, world.rows->0[m].image_cn, j),
    ensures
        outcome(service_search(hints, true), world) == Some(world.templates->0[k].template_id),
{
    lemma_named(hints, world);
    lemma_service_outcome(hints, true, world);
    let item = hints.store_item->0;
    let rows = world.rows->0;
    let templates = world.templates->0;
    let image = rows[m].image_cn;
    lemma_row_image(rows, item);
    let l = choose|l: int|
        0 <= l < rows.len() && (#[trigger] rows[l]).item_id == item && rows[l].image_cn
            == row_image(rows, item)->0 && forall|i: int|
            0 <= i < l ==> (#[trigger] rows[i]).item_id != item;
    if l < m {
        assert(rows[l].item_id != item);
    } else if l > m {
        assert(rows[m].item_id != item);
    }
    assert forall|j: int| 0 <= j < k implies !matches_image(#[trigger] templates[j], image) by {
        assert(!lists_image(world, image, j));
    }
    lemma_first_match_is_first(templates, image, k);
    lemma_outcome_of_one(TaskModel::MatchItem(item), false, world);
}

/// In the example service, where nothing else is to be had, the first template that is
/// listed as healthy or ready and is valid is taken; and nothing, where there is none.
/// Without a store the catalog has no say.
pub proof fn lemma_service_takes_any_usable(
    hints: HintsModel,
    has_store: bool,
    world: World,
    k: int,
)
    requires
        !names_valid(hints, world),
        !configures_valid(hints, world),
        !environment_valid(hints, world),
        has_store ==> forall|image: Seq<char>, k: int|
            #![trigger lists_image(world, image, k)]
            wants_stored(hints, world, image) ==> !lists_image(world, image, k),
        forall|j: int| 0 <= j < k ==> !#[trigger] lists_valid(world, j),
    ensures
        lists_valid(world, k) ==> outcome(service_search(hints, has_store), world) == Some(
            world.templates->0[k].template_id,
        ),
        world.templates is None || k >= world.templates->0.len() ==> outcome(
            service_search(hints, has_store),
            world,
        ) is None,
{
    lemma_named(hints, world);
    lemma_service_outcome(hints, has_store, world);
    lemma_outcome_of_one(TaskModel::AnyListed, false, world);
    lemma_first_listed(world, k);
    if let Some(item) = hints.store_item {
        if has_store {
            lemma_outcome_of_one(TaskModel::MatchItem(item), false, world);
            if let Some(rows) = world.rows {
                lemma_row_image(rows, item);
                if let Some(image) = row_image(rows, item) {
                    assert(wants_stored(hints, world, image));
                    if let Some(templates) = world.templates {
                        assert forall|j: int| 0 <= j < templates.len() implies !matches_image(
                            #[trigger] templates[j],
                            image,
                        ) by {
                            assert(!lists_image(world, image, j));
                        }
                        lemma_no_match(templates, image);
                    }
                }
            }
        }
    }
}

/// A blank template in a request counts as none, and so does an empty one in the
/// environment.
pub proof fn lemma_blank_counts_as_none(
    hints: HintsModel,
    has_store: bool,
    world: World,
    blank: Seq<char>,
)
    requires
        text::is_blank(blank),
    ensures
        ({
            let named = HintsModel { asked: Some(blank), ..hints };
            let unnamed = HintsModel { asked: None, ..hints };
            &&& outcome(endpoint_search(named), world) == outcome(endpoint_search(unnamed), world)
            &&& outcome(service_search(named, has_store), world) == outcome(
                service_search(unnamed, has_store),
                world,
            )
        }),
        ({
            let set = HintsModel { environment: Some(seq![]), ..hints };
            let unset = HintsModel { environment: None, ..hints };
            &&& outcome(endpoint_search(set), world) == outcome(endpoint_search(unset), world)
            &&& outcome(service_search(set, has_store), world) == outcome(
                service_search(unset, has_store),
                world,
            )
        }),
{
}

/// The search of the public endpoint ends with no empty identifier.
pub proof fn lemma_endpoint_takes_no_empty_identifier(hints: HintsModel, world: World)
    ensures
        outcome(endpoint_search(hints), world) matches Some(id) ==> id.len() > 0,
{
    lemma_no_empty_outcome(endpoint_search(hints).tasks, world);
}

proof fn lemma_no_empty_outcome(tasks: Seq<TaskModel>, world: World)
    ensures
        outcome_of(tasks, true, world) matches Some(id) ==> id.len() > 0,
    decreases tasks.len(),
{
    if tasks.len() > 0 {
        lemma_no_empty_outcome(tasks.drop_first(), world);
    }
}

/// A search that is over has come upon what it was to come upon, and a reply to what it
/// wants changes nothing about that.
pub proof fn lemma_search_comes_to_its_outcome(
    search: &Search,
    asked: Ask,
    reply: Reply,
    next: Search,
    world: World,
)
    requires
        call_ensures(Search::ask, (search,), asked),
        call_ensures(Search::after, (*search, reply), next),
        reply.model() == reply_in(world, asks(search.model())),
    ensures
        asked matches Ask::Done(found) ==> text::opt_text(found) == outcome(search.model(), world),
        outcome(next.model(), world) == outcome(search.model(), world),
{
    lemma_over_is_outcome(search.model(), world);
    lemma_reply_keeps_outcome(search.model(), world);
}

} // verus!
