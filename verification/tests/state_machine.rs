use todo_mvu::router::Page;
use todo_mvu::scroll::ScrollDirection;
use todo_mvu::{init, update, Msg, Visibility};

fn no_segments() -> Vec<String> {
    Vec::new()
}

#[test]
fn init_seeds_three_example_todos() {
    let model = init(&no_segments(), "TODO", "Mozilla/5.0");
    assert_eq!(model.new_todo().as_str(), "");
    assert_eq!(model.page(), Page::Home);
    assert_eq!(model.title().as_str(), "TODO");
    assert_eq!(model.menu_visibility(), Visibility::Hidden);
    assert!(!model.in_prerendering());
    assert_eq!(model.scroll_history().len(), 0);

    let entries = model.todos().iterate_ordered();
    assert_eq!(entries.len(), 3);
    assert_eq!(entries[0].1.content().as_str(), "Pick up groceries");
    assert!(!entries[0].1.is_complete());
    assert_eq!(entries[1].1.content().as_str(), "10 minutes meditation");
    assert!(!entries[1].1.is_complete());
    assert_eq!(entries[2].1.content().as_str(), "This is a completed todo");
    assert!(entries[2].1.is_complete());
    assert!(entries[0].0.value() < entries[1].0.value());
    assert!(entries[1].0.value() < entries[2].0.value());
}

#[test]
fn init_detects_the_prerendering_agent() {
    let model = init(&no_segments(), "TODO", "prerendering");
    assert!(model.in_prerendering());
    let model = init(&no_segments(), "TODO", "prerendering ");
    assert!(!model.in_prerendering());
}

#[test]
fn init_resolves_the_startup_path() {
    let model = init(&vec!["about".to_string()], "TODO", "Mozilla/5.0");
    assert_eq!(model.page(), Page::About);
    assert_eq!(model.title().as_str(), "About - TODO");
}

#[test]
fn draft_is_reset_on_create() {
    let mut model = init(&no_segments(), "TODO", "Mozilla/5.0");
    update(Msg::NewTodoChanged("wash car".to_string()), &mut model);
    assert_eq!(model.new_todo().as_str(), "wash car");

    let count_before = model.todos().count();
    update(Msg::CreateTodo, &mut model);

    assert_eq!(model.new_todo().as_str(), "");
    let entries = model.todos().iterate_ordered();
    assert_eq!(entries.len(), count_before + 1);
    let last = &entries[entries.len() - 1];
    assert_eq!(last.1.content().as_str(), "wash car");
    assert!(!last.1.is_complete());
}

#[test]
fn create_accepts_an_empty_draft() {
    let mut model = init(&no_segments(), "TODO", "Mozilla/5.0");
    update(Msg::CreateTodo, &mut model);
    let entries = model.todos().iterate_ordered();
    assert_eq!(entries.len(), 4);
    assert_eq!(entries[3].1.content().as_str(), "");
}

#[test]
fn toggle_complete_flips_only_the_addressed_entry() {
    let mut model = init(&no_segments(), "TODO", "Mozilla/5.0");
    let id = model.todos().iterate_ordered()[0].0;
    update(Msg::ToggleComplete(id), &mut model);
    let entries = model.todos().iterate_ordered();
    assert!(entries[0].1.is_complete());
    assert!(!entries[1].1.is_complete());
    assert!(entries[2].1.is_complete());
    update(Msg::ToggleComplete(id), &mut model);
    assert!(!model.todos().iterate_ordered()[0].1.is_complete());
}

#[test]
fn toggle_menu_flips_the_menu() {
    let mut model = init(&no_segments(), "TODO", "Mozilla/5.0");
    update(Msg::ToggleMenu, &mut model);
    assert_eq!(model.menu_visibility(), Visibility::Visible);
    update(Msg::ToggleMenu, &mut model);
    assert_eq!(model.menu_visibility(), Visibility::Hidden);
}

#[test]
fn navigate_replaces_page_and_title() {
    let mut model = init(&no_segments(), "TODO", "Mozilla/5.0");
    update(Msg::Navigate(vec!["about".to_string()]), &mut model);
    assert_eq!(model.page(), Page::About);
    assert_eq!(model.title().as_str(), "About - TODO");
    update(Msg::Navigate(vec!["missing".to_string()]), &mut model);
    assert_eq!(model.page(), Page::NotFound);
    assert_eq!(model.title().as_str(), "404 - TODO");
    update(Msg::Navigate(Vec::new()), &mut model);
    assert_eq!(model.page(), Page::Home);
    assert_eq!(model.title().as_str(), "TODO");
}

#[test]
fn scroll_messages_feed_the_history() {
    let mut model = init(&no_segments(), "TODO", "Mozilla/5.0");
    for offset in [0i64, 10, 25, 40] {
        update(Msg::ScrollObserved(offset), &mut model);
    }
    let history = model.scroll_history();
    assert_eq!(history.len(), 3);
    assert_eq!(history.sample(0), 10);
    assert_eq!(history.sample(1), 25);
    assert_eq!(history.sample(2), 40);
    assert_eq!(history.direction(), ScrollDirection::Down);
}

#[test]
fn messages_leave_unrelated_state_alone() {
    let mut model = init(&no_segments(), "TODO", "Mozilla/5.0");
    update(Msg::Navigate(vec!["about".to_string()]), &mut model);
    update(Msg::NewTodoChanged("note".to_string()), &mut model);
    update(Msg::ToggleMenu, &mut model);
    update(Msg::ScrollObserved(12), &mut model);

    assert_eq!(model.page(), Page::About);
    assert_eq!(model.title().as_str(), "About - TODO");
    assert_eq!(model.new_todo().as_str(), "note");
    assert_eq!(model.menu_visibility(), Visibility::Visible);
    assert_eq!(model.todos().count(), 3);
    assert!(!model.in_prerendering());
}
