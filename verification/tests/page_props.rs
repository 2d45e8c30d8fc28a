use counter_page::boundary::BoundaryView;
use counter_page::boundary::ErrorBoundary;
use counter_page::page::CounterAction;
use counter_page::page::CounterCommand;
use counter_page::page::Page;
use counter_page::page::PageEvent;

fn item_event(id: u32, action: CounterAction) -> PageEvent {
    PageEvent::Item(CounterCommand { id, action })
}

fn ids_of(page: &Page) -> Vec<u32> {
    page.counters().iter().map(|c| c.id).collect()
}

fn values_of(page: &Page) -> Vec<i32> {
    page.counters().iter().map(|c| c.value.get().unwrap()).collect()
}

fn instances_of(page: &Page) -> Vec<u64> {
    page.rendered().iter().map(|it| it.instance).collect()
}

#[test]
fn initial_page_has_three_seeded_counters() {
    let page = Page::new();
    assert_eq!(ids_of(&page), vec![0, 1, 2]);
    assert_eq!(values_of(&page), vec![0, 10, 20]);
    let shown: Vec<i32> = page.rendered().iter().map(|it| it.shown).collect();
    assert_eq!(shown, vec![0, 10, 20]);
    match page.display() {
        BoundaryView::Content(items) => {
            assert_eq!(items.len(), 3);
            let keys: Vec<u32> = items.iter().map(|it| it.key).collect();
            assert_eq!(keys, vec![0, 1, 2]);
        },
        BoundaryView::Fallback(_) => panic!("boundary must start in the normal state"),
    }
}

#[test]
fn end_to_end_add_remove_increase() {
    let mut page = Page::new();
    assert_eq!(ids_of(&page), vec![0, 1, 2]);
    assert_eq!(values_of(&page), vec![0, 10, 20]);

    page.handle(PageEvent::AddCounter);
    assert_eq!(ids_of(&page), vec![0, 1, 2, 3]);
    assert_eq!(values_of(&page), vec![0, 10, 20, 30]);

    page.handle(item_event(1, CounterAction::Remove));
    assert_eq!(ids_of(&page), vec![0, 2, 3]);
    assert_eq!(values_of(&page), vec![0, 20, 30]);

    page.handle(item_event(2, CounterAction::Increase));
    assert_eq!(values_of(&page), vec![0, 30, 30]);
}

#[test]
fn add_keeps_existing_item_identities() {
    let mut page = Page::new();
    let before = instances_of(&page);
    page.handle(PageEvent::AddCounter);
    let after = instances_of(&page);
    assert_eq!(after.len(), 4);
    assert_eq!(&after[..3], &before[..]);
    assert!(!before.contains(&after[3]));
}

#[test]
fn remove_keeps_sibling_item_identities() {
    let mut page = Page::new();
    let before = instances_of(&page);
    page.handle(item_event(1, CounterAction::Remove));
    let keys: Vec<u32> = page.rendered().iter().map(|it| it.key).collect();
    assert_eq!(keys, vec![0, 2]);
    let after = instances_of(&page);
    assert_eq!(after, vec![before[0], before[2]]);
}

#[test]
fn step_updates_only_target_span() {
    let mut page = Page::new();
    let before = instances_of(&page);
    page.handle(item_event(1, CounterAction::Increase));
    assert_eq!(instances_of(&page), before);
    let shown: Vec<i32> = page.rendered().iter().map(|it| it.shown).collect();
    assert_eq!(shown, vec![0, 20, 20]);
    page.handle(item_event(1, CounterAction::Decrease));
    let shown: Vec<i32> = page.rendered().iter().map(|it| it.shown).collect();
    assert_eq!(shown, vec![0, 10, 20]);
    assert_eq!(instances_of(&page), before);
}

#[test]
fn commands_for_absent_ids_are_noops() {
    let mut page = Page::new();
    let ids = ids_of(&page);
    let values = values_of(&page);
    let instances = instances_of(&page);
    page.handle(item_event(99, CounterAction::Remove));
    page.handle(item_event(99, CounterAction::Increase));
    page.handle(item_event(99, CounterAction::Decrease));
    assert_eq!(ids_of(&page), ids);
    assert_eq!(values_of(&page), values);
    assert_eq!(instances_of(&page), instances);
}

#[test]
fn render_failure_shows_fallback_and_spares_state() {
    let mut page = Page::new();
    page.handle(PageEvent::AddCounter);
    let ids = ids_of(&page);
    let values = values_of(&page);
    page.fail_render(vec![String::from("boom"), String::from("split")]);
    match page.display() {
        BoundaryView::Fallback(errors) => {
            assert_eq!(errors, &vec![String::from("boom"), String::from("split")]);
        },
        BoundaryView::Content(_) => panic!("boundary must show the fallback after a failure"),
    }
    // The state behind and outside the boundary is untouched by the failure.
    assert_eq!(ids_of(&page), ids);
    assert_eq!(values_of(&page), values);
    // A later render pass that completes returns to the normal state.
    page.render();
    match page.display() {
        BoundaryView::Content(items) => assert_eq!(items.len(), 4),
        BoundaryView::Fallback(_) => panic!("a clean render pass must clear the fallback"),
    }
}

#[test]
fn boundary_reflects_latest_outcome() {
    let mut boundary: ErrorBoundary<i32> = ErrorBoundary::new(1);
    boundary.observe(Err(vec![String::from("first failure")]));
    match boundary.view_ref() {
        BoundaryView::Fallback(errors) => assert_eq!(errors[0], "first failure"),
        BoundaryView::Content(_) => panic!("failure must switch the boundary to the fallback"),
    }
    boundary.observe(Ok(2));
    match boundary.view_ref() {
        BoundaryView::Content(v) => assert_eq!(*v, 2),
        BoundaryView::Fallback(_) => panic!("a clean pass must restore the content"),
    }
}
