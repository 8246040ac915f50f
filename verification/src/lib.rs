pub mod ident;
pub mod router;
pub mod scroll;
pub mod todos;

use vstd::prelude::*;
use vstd::string::StringExecFns;
use crate::ident::{IdGenerator, Identifier};
use crate::router::{resolve, spec_resolve_page, spec_title, Page};
use crate::scroll::{spec_push_sample, ScrollHistory};
use crate::todos::{
    contains_id, spec_insert, spec_toggle_entries, Todo, TodoStore, TodoView,
};

verus! {

/// Shown/hidden state for a UI element such as the side menu.
#[derive(Clone, Copy, PartialEq, Eq, Structural, Debug)]
pub enum Visibility {
    Visible,
    Hidden,
}

/// The value `toggle` moves a visibility to: each variant maps to the other.
pub open spec fn spec_toggle(v: Visibility) -> Visibility {
    match v {
        Visibility::Visible => Visibility::Hidden,
        Visibility::Hidden => Visibility::Visible,
    }
}

impl Visibility {
    /// Flip the visibility in place.
    pub fn toggle(&mut self)
        ensures
            *final(self) == spec_toggle(*old(self)),
    {
        *self = match *self {
            Visibility::Visible => Visibility::Hidden,
            Visibility::Hidden => Visibility::Visible,
        };
    }
}

/// Toggling twice restores the original visibility: `toggle` is an involution.
pub proof fn lemma_toggle_involution(v: Visibility)
    ensures
        spec_toggle(spec_toggle(v)) == v,
{
}

/// The complete application state. It is created once by `init` and from
/// then on only replaced wholesale by `update`.
pub struct Model {
    new_todo: String,
    todos: TodoStore,
    id_gen: IdGenerator,
    page: Page,
    title: String,
    base_title: String,
    menu_visibility: Visibility,
    in_prerendering: bool,
    scroll_history: ScrollHistory,
}

impl Model {
    /// The in-progress text for a not-yet-created todo.
    pub closed spec fn draft(&self) -> Seq<char> {
        self.new_todo@
    }

    /// The todo entries, keyed and ordered by identifier.
    pub closed spec fn entries(&self) -> Seq<(u128, TodoView)> {
        self.todos@
    }

    /// Every identifier value issued so far, oldest first.
    pub closed spec fn issued(&self) -> Seq<u128> {
        self.id_gen.issued_ids()
    }

    /// The most recently issued identifier value.
    pub closed spec fn last_id(&self) -> u128 {
        self.id_gen.last_issued()
    }

    pub closed spec fn cur_page(&self) -> Page {
        self.page
    }

    pub closed spec fn cur_title(&self) -> Seq<char> {
        self.title@
    }

    pub closed spec fn base(&self) -> Seq<char> {
        self.base_title@
    }

    pub closed spec fn menu(&self) -> Visibility {
        self.menu_visibility
    }

    pub closed spec fn prerendering(&self) -> bool {
        self.in_prerendering
    }

    pub closed spec fn scroll(&self) -> Seq<i64> {
        self.scroll_history@
    }

    pub closed spec fn wf(&self) -> bool {
        &&& self.todos.well_formed()
        &&& self.id_gen.wf()
        &&& self.scroll_history.wf()
        &&& forall|i: int|
            0 <= i < self.todos@.len() ==> (#[trigger] self.todos@[i]).0
                <= self.id_gen.last_issued()
    }

    pub fn new_todo(&self) -> (r: &String)
        ensures
            r@ == self.draft(),
    {
        &self.new_todo
    }

    pub fn todos(&self) -> (r: &TodoStore)
        ensures
            r@ == self.entries(),
            self.wf() ==> r.well_formed(),
    {
        &self.todos
    }

    pub fn page(&self) -> (r: Page)
        ensures
            r == self.cur_page(),
    {
        self.page
    }

    pub fn title(&self) -> (r: &String)
        ensures
            r@ == self.cur_title(),
    {
        &self.title
    }

    pub fn menu_visibility(&self) -> (r: Visibility)
        ensures
            r == self.menu(),
    {
        self.menu_visibility
    }

    pub fn in_prerendering(&self) -> (r: bool)
        ensures
            r == self.prerendering(),
    {
        self.in_prerendering
    }

    pub fn scroll_history(&self) -> (r: &ScrollHistory)
        ensures
            r@ == self.scroll(),
    {
        &self.scroll_history
    }

    /// Whether a `CreateTodo` message can still be applied: the identifier
    /// budget is the model's one machine limit.
    pub fn can_create(&self) -> (r: bool)
        requires
            self.wf(),
        ensures
            r == (self.issued().len() < u64::MAX),
    {
        self.id_gen.can_issue()
    }
}

/// The closed vocabulary of events that change the state.
pub enum Msg {
    NewTodoChanged(String),
    CreateTodo,
    ToggleComplete(Identifier),
    ToggleMenu,
    Navigate(Vec<String>),
    ScrollObserved(i64),
}

/// The parts of the model a message never touches, grouped by component.
pub open spec fn same_todos(a: &Model, b: &Model) -> bool {
    a.entries() == b.entries() && a.issued() == b.issued() && a.last_id() == b.last_id()
}

pub open spec fn same_route(a: &Model, b: &Model) -> bool {
    a.cur_page() == b.cur_page() && a.cur_title() == b.cur_title()
}

pub open spec fn same_panels(a: &Model, b: &Model) -> bool {
    a.menu() == b.menu() && a.scroll() == b.scroll()
}

/// Build the startup model: the page resolved from the startup path, an
/// empty draft, a hidden menu, an empty scroll history, the prerendering
/// flag read from the reported agent string, and the store seeded with three
/// example todos, the last of them already completed.
pub fn init(path_segments: &Vec<String>, base_title: &str, user_agent: &str) -> (m: Model)
    ensures
        m.wf(),
        m.draft() == Seq::<char>::empty(),
        m.menu() == Visibility::Hidden,
        m.scroll() == Seq::<i64>::empty(),
        m.prerendering() == (user_agent@ == "prerendering"@),
        m.base() == base_title@,
        m.cur_page() == spec_resolve_page(path_segments@.map_values(|s: String| s@)),
        m.cur_title() == spec_title(path_segments@.map_values(|s: String| s@), base_title@),
        m.entries().len() == 3,
        m.entries()[0].1 == (TodoView { content: "Pick up groceries"@, is_complete: false }),
        m.entries()[1].1 == (TodoView { content: "10 minutes meditation"@, is_complete: false }),
        m.entries()[2].1 == (TodoView {
            content: "This is a completed todo"@,
            is_complete: true,
        }),
        m.entries()[0].0 < m.entries()[1].0 < m.entries()[2].0,
        m.issued().len() == 3,
{
    let mut id_gen = IdGenerator::new();
    let id1 = id_gen.next();
    let id2 = id_gen.next();
    let id3 = id_gen.next();
    let mut todos = TodoStore::new();
    todos.create(id1, "Pick up groceries".to_owned());
    proof {
        assert(todos@ =~= seq![(id1@, TodoView { content: "Pick up groceries"@, is_complete: false })]);
    }
    todos.create(id2, "10 minutes meditation".to_owned());
    proof {
        crate::todos::lemma_create_appends(
            seq![(id1@, TodoView { content: "Pick up groceries"@, is_complete: false })],
            id2@,
            TodoView { content: "10 minutes meditation"@, is_complete: false },
        );
        assert(todos@ =~= seq![
            (id1@, TodoView { content: "Pick up groceries"@, is_complete: false }),
            (id2@, TodoView { content: "10 minutes meditation"@, is_complete: false }),
        ]);
    }
    todos.insert_entry(id3, Todo::new_completed("This is a completed todo".to_owned()));
    proof {
        crate::todos::lemma_create_appends(
            seq![
                (id1@, TodoView { content: "Pick up groceries"@, is_complete: false }),
                (id2@, TodoView { content: "10 minutes meditation"@, is_complete: false }),
            ],
            id3@,
            TodoView { content: "This is a completed todo"@, is_complete: true },
        );
        assert(todos@ =~= seq![
            (id1@, TodoView { content: "Pick up groceries"@, is_complete: false }),
            (id2@, TodoView { content: "10 minutes meditation"@, is_complete: false }),
            (id3@, TodoView { content: "This is a completed todo"@, is_complete: true }),
        ]);
    }
    let (page, title) = resolve(path_segments, base_title);
    let agent: String = user_agent.to_owned();
    let sentinel: String = "prerendering".to_owned();
    let in_prerendering = agent == sentinel;
    Model {
        new_todo: String::new(),
        todos,
        id_gen,
        page,
        title,
        base_title: base_title.to_owned(),
        menu_visibility: Visibility::Hidden,
        in_prerendering,
        scroll_history: ScrollHistory::new(),
    }
}

/// The single place state changes: map the current model and one message to
/// the next model. Total over the message vocabulary; the identifier budget
/// is the one machine limit.
pub fn update(msg: Msg, model: &mut Model)
    requires
        old(model).wf(),
        msg is CreateTodo ==> old(model).issued().len() < u64::MAX,
    ensures
        final(model).wf(),
        final(model).base() == old(model).base(),
        final(model).prerendering() == old(model).prerendering(),
        (msg matches Msg::NewTodoChanged(s) ==> final(model).draft() == s@ && same_todos(
            final(model),
            old(model),
        ) && same_route(final(model), old(model)) && same_panels(final(model), old(model))),
        (msg is CreateTodo ==> {
            &&& final(model).draft() == Seq::<char>::empty()
            &&& final(model).last_id() > old(model).last_id()
            &&& !contains_id(old(model).entries(), final(model).last_id())
            &&& final(model).entries() == old(model).entries().push(
                (
                    final(model).last_id(),
                    TodoView { content: old(model).draft(), is_complete: false },
                ),
            )
            &&& final(model).issued() == old(model).issued().push(final(model).last_id())
            &&& same_route(final(model), old(model))
            &&& same_panels(final(model), old(model))
        }),
        (msg matches Msg::ToggleComplete(id) ==> final(model).entries() == spec_toggle_entries(
            old(model).entries(),
            id@,
        ) && final(model).issued() == old(model).issued()
            && final(model).last_id() == old(model).last_id()
            && final(model).draft() == old(model).draft()
            && same_route(final(model), old(model)) && same_panels(final(model), old(model))),
        (msg is ToggleMenu ==> final(model).menu() == spec_toggle(old(model).menu())
            && final(model).scroll() == old(model).scroll()
            && final(model).draft() == old(model).draft()
            && same_todos(final(model), old(model)) && same_route(final(model), old(model))),
        (msg matches Msg::Navigate(segments) ==> final(model).cur_page() == spec_resolve_page(
            segments@.map_values(|s: String| s@),
        ) && final(model).cur_title() == spec_title(
            segments@.map_values(|s: String| s@),
            old(model).base(),
        ) && final(model).draft() == old(model).draft() && same_todos(final(model), old(model))
            && same_panels(final(model), old(model))),
        (msg matches Msg::ScrollObserved(offset) ==> final(model).scroll() == spec_push_sample(
            old(model).scroll(),
            offset,
        ) && final(model).menu() == old(model).menu()
            && final(model).draft() == old(model).draft()
            && same_todos(final(model), old(model)) && same_route(final(model), old(model))),
{
    match msg {
        Msg::NewTodoChanged(new_todo) => {
            model.new_todo = new_todo;
        },
        Msg::CreateTodo => {
            let ghost old_entries = model.todos@;
            let ghost old_draft = model.new_todo@;
            let id = model.id_gen.next();
            proof {
                assert(forall|i: int|
                    0 <= i < old_entries.len() ==> (#[trigger] old_entries[i]).0 < id@);
            }
            let content = model.new_todo.clone();
            model.todos.create(id, content);
            model.new_todo = String::new();
            proof {
                crate::todos::lemma_create_appends(
                    old_entries,
                    id@,
                    TodoView { content: old_draft, is_complete: false },
                );
            }
        },
        Msg::ToggleComplete(id) => {
            model.todos.toggle_complete(&id);
        },
        Msg::ToggleMenu => {
            model.menu_visibility.toggle();
        },
        Msg::Navigate(segments) => {
            let (page, title) = resolve(&segments, model.base_title.as_str());
            model.page = page;
            model.title = title;
        },
        Msg::ScrollObserved(offset) => {
            model.scroll_history.push(offset);
        },
    }
}

/// The path under which static assets are served.
pub fn asset_path(asset: &str) -> (r: String)
    ensures
        r@ == "static"@ + "/"@ + asset@,
{
    "static".to_owned().concat("/").concat(asset)
}

/// The path of an image asset.
pub fn image_src(image: &str) -> (r: String)
    ensures
        r@ == "static/images"@ + "/"@ + image@,
{
    "static/images".to_owned().concat("/").concat(image)
}

/// The CSS `url(...)` form of an image asset path.
pub fn image_src_url(image: &str) -> (r: String)
    ensures
        r@ == "url("@ + "static/images"@ + "/"@ + image@ + ")"@,
{
    "url(".to_owned().concat("static/images").concat("/").concat(image).concat(")")
}

} // verus!
