use page_collection::{Date, Entity, ItemSet, Label, Name, PageUrl};

fn url(text: &str) -> PageUrl {
    PageUrl::new(text.to_string())
}

fn day(julian_day: i32) -> Date {
    Date::from_julian_day(julian_day)
}

fn names(texts: &[&str]) -> ItemSet<Name> {
    let mut set = ItemSet::new();
    for text in texts {
        set.insert(Name::from(*text));
    }
    set
}

fn labels(texts: &[&str]) -> ItemSet<Label> {
    let mut set = ItemSet::new();
    for text in texts {
        set.insert(Label::from(*text));
    }
    set
}

fn days(julian_days: &[i32]) -> ItemSet<Date> {
    let mut set = ItemSet::new();
    for julian_day in julian_days {
        set.insert(day(*julian_day));
    }
    set
}

fn seen_once(on: i32, name: &str) -> Entity {
    Entity::new(url("https://x/"), day(on), Some(Name::from(name)), ItemSet::new())
}

#[test]
fn new_entity_has_what_it_was_given() {
    let entity = Entity::new(url("https://x/"), day(10), Some(Name::from("Alpha")), labels(&["l1", "l2"]));
    assert_eq!(entity.url().as_str(), "https://x/");
    assert_eq!(entity.created_at().to_julian_day(), 10);
    assert!(entity.updated_at().is_empty());
    assert_eq!(*entity.names(), names(&["Alpha"]));
    assert_eq!(*entity.labels(), labels(&["l1", "l2"]));
}

#[test]
fn new_entity_without_a_name_has_no_name() {
    let entity = Entity::new(url("https://x/"), day(10), None, ItemSet::new());
    assert!(entity.names().is_empty());
    assert!(entity.labels().is_empty());
    assert!(entity.updated_at().is_empty());
}

#[test]
fn earlier_day_becomes_created_at() {
    let mut entity = seen_once(10, "Alpha");
    entity.update(day(5), ItemSet::new(), ItemSet::new());
    assert_eq!(entity.created_at().to_julian_day(), 5);
    assert_eq!(*entity.updated_at(), days(&[10]));
}

#[test]
fn later_day_joins_updated_at() {
    let mut entity = seen_once(10, "Alpha");
    entity.update(day(12), ItemSet::new(), ItemSet::new());
    assert_eq!(entity.created_at().to_julian_day(), 10);
    assert_eq!(*entity.updated_at(), days(&[12]));
}

#[test]
fn day_of_created_at_stays_out_of_updated_at() {
    let mut entity = seen_once(10, "Alpha");
    entity.update(day(10), ItemSet::new(), ItemSet::new());
    assert_eq!(entity.created_at().to_julian_day(), 10);
    assert!(entity.updated_at().is_empty());
    entity.update(day(12), ItemSet::new(), ItemSet::new());
    entity.update(day(10), ItemSet::new(), ItemSet::new());
    assert_eq!(*entity.updated_at(), days(&[12]));
}

#[test]
fn day_seen_twice_is_held_once() {
    let mut entity = seen_once(10, "Alpha");
    entity.update(day(12), ItemSet::new(), ItemSet::new());
    entity.update(day(12), ItemSet::new(), ItemSet::new());
    assert_eq!(entity.updated_at().len(), 1);
    assert_eq!(*entity.updated_at(), days(&[12]));
}

#[test]
fn update_joins_names_and_labels() {
    let mut entity = Entity::new(url("https://x/"), day(10), Some(Name::from("Alpha")), labels(&["l1"]));
    entity.update(day(11), names(&["Beta", "Alpha"]), labels(&["l2", "l1", "l3"]));
    assert_eq!(*entity.names(), names(&["Alpha", "Beta"]));
    assert_eq!(entity.names().len(), 2);
    assert_eq!(*entity.labels(), labels(&["l1", "l2", "l3"]));
    assert_eq!(entity.labels().len(), 3);
}

#[test]
fn update_keeps_the_url() {
    let mut entity = seen_once(10, "Alpha");
    entity.update(day(5), names(&["Beta"]), labels(&["l1"]));
    assert_eq!(entity.url().as_str(), "https://x/");
}

#[test]
fn update_returns_the_entity() {
    let mut entity = seen_once(10, "Alpha");
    entity
        .update(day(5), ItemSet::new(), ItemSet::new())
        .update(day(7), ItemSet::new(), ItemSet::new())
        .update(day(3), names(&["Beta"]), ItemSet::new());
    assert_eq!(entity.created_at().to_julian_day(), 3);
    assert_eq!(*entity.updated_at(), days(&[10, 7, 5]));
    assert_eq!(*entity.names(), names(&["Alpha", "Beta"]));
}

#[test]
fn merge_folds_the_other_sighting_in() {
    let mut entity = seen_once(10, "Alpha");
    let other = Entity::new(url("https://x/"), day(5), Some(Name::from("Beta")), labels(&["l1"]));
    entity.merge(other);
    assert_eq!(entity.created_at().to_julian_day(), 5);
    assert_eq!(*entity.updated_at(), days(&[10]));
    assert_eq!(*entity.names(), names(&["Alpha", "Beta"]));
    assert_eq!(*entity.labels(), labels(&["l1"]));
}

#[test]
fn merge_takes_only_created_at_of_the_other() {
    let mut entity = seen_once(10, "Alpha");
    let mut other = seen_once(20, "Beta");
    other.update(day(30), ItemSet::new(), ItemSet::new());
    other.update(day(40), ItemSet::new(), ItemSet::new());
    entity.merge(other);
    assert_eq!(entity.created_at().to_julian_day(), 10);
    assert_eq!(*entity.updated_at(), days(&[20]));
}

#[test]
fn merge_keeps_the_url_of_the_entity() {
    let mut entity = seen_once(10, "Alpha");
    let other = Entity::new(url("https://y/"), day(5), None, ItemSet::new());
    entity.merge(other);
    assert_eq!(entity.url().as_str(), "https://x/");
}

#[test]
fn created_at_is_the_earliest_of_all_days() {
    let seen = [10, 5, 7, 5, 12, 3, 12, 10, 3, 8];
    let mut entity = seen_once(seen[0], "n0");
    for on in &seen[1..] {
        entity.merge(seen_once(*on, "n"));
    }
    assert_eq!(entity.created_at().to_julian_day(), 3);
    assert_eq!(*entity.updated_at(), days(&[10, 5, 7, 12, 8]));
    assert_eq!(entity.updated_at().len(), 5);
    assert!(!entity.updated_at().contains(&day(3)));
    assert_eq!(*entity.names(), names(&["n0", "n"]));
}

#[test]
fn days_in_any_order_give_the_same_entity() {
    let orders = [[1, 2, 3], [1, 3, 2], [2, 1, 3], [2, 3, 1], [3, 1, 2], [3, 2, 1]];
    for order in orders.iter() {
        let mut entity = seen_once(order[0], "Alpha");
        entity.merge(seen_once(order[1], "Alpha"));
        entity.merge(seen_once(order[2], "Alpha"));
        assert_eq!(entity.created_at().to_julian_day(), 1);
        assert_eq!(*entity.updated_at(), days(&[2, 3]));
    }
}

#[test]
fn negative_julian_days_are_ordered_too() {
    let mut entity = seen_once(0, "Alpha");
    entity.update(day(-5), ItemSet::new(), ItemSet::new());
    entity.update(day(i32::MIN), ItemSet::new(), ItemSet::new());
    entity.update(day(i32::MAX), ItemSet::new(), ItemSet::new());
    assert_eq!(entity.created_at().to_julian_day(), i32::MIN);
    assert_eq!(*entity.updated_at(), days(&[0, -5, i32::MAX]));
}

#[test]
fn entities_are_equal_by_value() {
    let mut a = seen_once(10, "Alpha");
    a.update(day(12), names(&["Beta"]), labels(&["l1", "l2"]));
    a.update(day(11), ItemSet::new(), ItemSet::new());
    let mut b = seen_once(10, "Beta");
    b.update(day(11), names(&["Alpha"]), labels(&["l2"]));
    b.update(day(12), ItemSet::new(), labels(&["l1"]));
    assert_eq!(a, b);
    assert_ne!(a, seen_once(10, "Alpha"));
    assert_ne!(seen_once(10, "Alpha"), seen_once(11, "Alpha"));
    assert_ne!(seen_once(10, "Alpha"), seen_once(10, "Beta"));
    assert_ne!(
        Entity::new(url("https://x/"), day(10), None, ItemSet::new()),
        Entity::new(url("https://y/"), day(10), None, ItemSet::new())
    );
}

#[test]
fn clone_of_an_entity_is_equal_to_it() {
    let mut entity = seen_once(10, "Alpha");
    entity.update(day(12), names(&["Beta"]), labels(&["l1"]));
    let copy = entity.clone();
    assert_eq!(copy, entity);
    assert_eq!(copy.created_at().to_julian_day(), 10);
}
