use todo_mvu::ident::{IdGenerator, Identifier};
use todo_mvu::router::{resolve, Page};
use todo_mvu::scroll::{ScrollDirection, ScrollHistory};
use todo_mvu::todos::TodoStore;
use todo_mvu::{asset_path, image_src, image_src_url, Visibility};

#[test]
fn visibility_toggle_is_an_involution() {
    let mut v = Visibility::Visible;
    v.toggle();
    assert_eq!(v, Visibility::Hidden);
    v.toggle();
    assert_eq!(v, Visibility::Visible);

    let mut h = Visibility::Hidden;
    h.toggle();
    assert_eq!(h, Visibility::Visible);
    h.toggle();
    assert_eq!(h, Visibility::Hidden);
}

#[test]
fn identifiers_are_distinct_and_increasing() {
    let mut gen = IdGenerator::new();
    let mut previous: Option<u128> = None;
    for _ in 0..100 {
        let id = gen.next();
        if let Some(p) = previous {
            assert!(id.value() > p);
        }
        previous = Some(id.value());
    }
}

#[test]
fn scroll_history_keeps_the_last_three() {
    let mut h = ScrollHistory::new();
    for offset in [10i64, 20, 30, 40, 50] {
        h.push(offset);
    }
    assert_eq!(h.len(), 3);
    assert_eq!(h.sample(0), 30);
    assert_eq!(h.sample(1), 40);
    assert_eq!(h.sample(2), 50);
}

#[test]
fn scroll_history_under_capacity_keeps_everything() {
    let mut h = ScrollHistory::new();
    h.push(-5);
    h.push(7);
    assert_eq!(h.len(), 2);
    assert_eq!(h.sample(0), -5);
    assert_eq!(h.sample(1), 7);
}

#[test]
fn scroll_direction_down_when_offset_grew() {
    let mut h = ScrollHistory::new();
    h.push(1);
    h.push(2);
    h.push(3);
    assert_eq!(h.direction(), ScrollDirection::Down);
}

#[test]
fn scroll_direction_up_breaks_ties_with_older_sample() {
    let mut h = ScrollHistory::new();
    h.push(5);
    h.push(3);
    h.push(3);
    assert_eq!(h.direction(), ScrollDirection::Up);
}

#[test]
fn scroll_direction_unchanged_without_a_differing_sample() {
    let mut h = ScrollHistory::new();
    assert_eq!(h.direction(), ScrollDirection::Unchanged);
    h.push(7);
    assert_eq!(h.direction(), ScrollDirection::Unchanged);
    h.push(7);
    h.push(7);
    assert_eq!(h.direction(), ScrollDirection::Unchanged);
}

#[test]
fn router_is_total_over_the_three_pages() {
    let (page, title) = resolve(&vec![], "TODO");
    assert_eq!(page, Page::Home);
    assert_eq!(title.as_str(), "TODO");

    let (page, title) = resolve(&vec!["about".to_string()], "TODO");
    assert_eq!(page, Page::About);
    assert_eq!(title.as_str(), "About - TODO");

    let (page, title) = resolve(&vec!["about".to_string(), "extra".to_string()], "TODO");
    assert_eq!(page, Page::NotFound);
    assert_eq!(title.as_str(), "404 - TODO");

    let (page, title) = resolve(&vec!["xyz".to_string()], "TODO");
    assert_eq!(page, Page::NotFound);
    assert_eq!(title.as_str(), "404 - TODO");
}

#[test]
fn create_then_toggle_round_trip() {
    let mut store = TodoStore::new();
    let id = Identifier::from_value(7);
    store.create(id, "buy milk".to_string());
    store.toggle_complete(&id);

    let entries = store.iterate_ordered();
    assert_eq!(entries.len(), 1);
    assert_eq!(entries[0].0, id);
    assert_eq!(entries[0].1.content().as_str(), "buy milk");
    assert!(entries[0].1.is_complete());

    store.toggle_complete(&id);
    let entries = store.iterate_ordered();
    assert!(!entries[0].1.is_complete());
    assert_eq!(entries[0].1.content().as_str(), "buy milk");
}

#[test]
fn toggle_on_absent_id_is_a_no_op() {
    let mut store = TodoStore::new();
    store.create(Identifier::from_value(1), "one".to_string());
    store.create(Identifier::from_value(2), "two".to_string());
    store.toggle_complete(&Identifier::from_value(2));

    let before: Vec<(u128, String, bool)> = store
        .iterate_ordered()
        .into_iter()
        .map(|(id, todo)| (id.value(), todo.content().clone(), todo.is_complete()))
        .collect();

    store.toggle_complete(&Identifier::from_value(99));

    let after: Vec<(u128, String, bool)> = store
        .iterate_ordered()
        .into_iter()
        .map(|(id, todo)| (id.value(), todo.content().clone(), todo.is_complete()))
        .collect();
    assert_eq!(before, after);
    assert_eq!(store.count(), 2);
}

#[test]
fn iteration_order_is_creation_order_despite_toggles() {
    let mut gen = IdGenerator::new();
    let id1 = gen.next();
    let id2 = gen.next();
    let id3 = gen.next();

    let mut store = TodoStore::new();
    store.create(id1, "first".to_string());
    store.toggle_complete(&id1);
    store.create(id2, "second".to_string());
    store.toggle_complete(&id2);
    store.toggle_complete(&id1);
    store.create(id3, "third".to_string());
    store.toggle_complete(&id3);

    let entries = store.iterate_ordered();
    assert_eq!(entries.len(), 3);
    assert_eq!(entries[0].0, id1);
    assert_eq!(entries[1].0, id2);
    assert_eq!(entries[2].0, id3);
    assert_eq!(entries[0].1.content().as_str(), "first");
    assert_eq!(entries[1].1.content().as_str(), "second");
    assert_eq!(entries[2].1.content().as_str(), "third");
}

#[test]
fn keys_are_kept_sorted_whatever_the_insertion_order() {
    let mut store = TodoStore::new();
    store.create(Identifier::from_value(5), "five".to_string());
    store.create(Identifier::from_value(2), "two".to_string());
    store.create(Identifier::from_value(9), "nine".to_string());

    let entries = store.iterate_ordered();
    assert_eq!(entries[0].0.value(), 2);
    assert_eq!(entries[1].0.value(), 5);
    assert_eq!(entries[2].0.value(), 9);
}

#[test]
fn incomplete_count_ignores_completed_entries() {
    let mut store = TodoStore::new();
    store.create(Identifier::from_value(1), "a".to_string());
    store.create(Identifier::from_value(2), "b".to_string());
    store.create(Identifier::from_value(3), "c".to_string());
    store.toggle_complete(&Identifier::from_value(2));
    assert_eq!(store.count(), 3);
    assert_eq!(store.count_incomplete(), 2);
}

#[test]
fn asset_helpers_build_the_expected_paths() {
    assert_eq!(
        image_src("bg-desktop-light.jpg").as_str(),
        "static/images/bg-desktop-light.jpg"
    );
    assert_eq!(
        image_src_url("icon-moon.svg").as_str(),
        "url(static/images/icon-moon.svg)"
    );
    assert_eq!(asset_path("styles.css").as_str(), "static/styles.css");
}
