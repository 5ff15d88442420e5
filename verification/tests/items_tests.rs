use appcore::items::InMemoryItemService;
use appcore::items::ItemService;

#[test]
fn new_service_is_seeded() {
    let service = InMemoryItemService::new();
    let items = service.list_all();
    assert_eq!(items.len(), 3);
    assert_eq!(items[0].id, 1);
    assert_eq!(items[0].title, "Set up project");
    assert!(items[0].done);
    assert_eq!(items[1].id, 2);
    assert_eq!(items[1].title, "Add database");
    assert!(!items[1].done);
    assert_eq!(items[2].id, 3);
    assert_eq!(items[2].title, "Deploy");
    assert!(!items[2].done);
}

#[test]
fn get_by_id_finds_items() {
    let service = InMemoryItemService::new();
    let item = service.get_by_id(2).unwrap();
    assert_eq!(item.id, 2);
    assert_eq!(item.title, "Add database");
    assert!(service.get_by_id(99).is_none());
}

#[test]
fn create_appends_with_next_id() {
    let mut service = InMemoryItemService::new();
    let item = service.create("Write docs".to_string(), "Document the endpoints".to_string());
    assert_eq!(item.id, 4);
    assert_eq!(item.title, "Write docs");
    assert_eq!(item.description, "Document the endpoints");
    assert!(!item.done);
    let next = service.create("Another".to_string(), "".to_string());
    assert_eq!(next.id, 5);
    let items = service.list_all();
    assert_eq!(items.len(), 5);
    assert_eq!(items[3].id, 4);
    assert_eq!(items[4].id, 5);
}

#[test]
fn toggle_done_flips_the_flag() {
    let mut service = InMemoryItemService::new();
    let toggled = service.toggle_done(2).unwrap();
    assert_eq!(toggled.id, 2);
    assert!(toggled.done);
    let back = service.toggle_done(2).unwrap();
    assert!(!back.done);
    assert!(service.toggle_done(99).is_none());
    assert_eq!(service.list_all().len(), 3);
}

#[test]
fn delete_removes_and_reports() {
    let mut service = InMemoryItemService::new();
    assert!(service.delete(2));
    let items = service.list_all();
    assert_eq!(items.len(), 2);
    assert_eq!(items[0].id, 1);
    assert_eq!(items[1].id, 3);
    assert!(!service.delete(2));
    assert!(service.get_by_id(2).is_none());
}
