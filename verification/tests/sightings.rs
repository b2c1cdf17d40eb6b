use page_collection::{Collection, Date, Entity, ItemSet, Label, Name, PageUrl};
use time::Month;

fn parsed(text: &str) -> PageUrl {
    PageUrl::new(String::from(url::Url::parse(text).unwrap()))
}

fn calendar(year: i32, month: Month, day: u8) -> Date {
    Date::from_julian_day(time::Date::from_calendar_date(year, month, day).unwrap().to_julian_day())
}

fn names(texts: &[&str]) -> ItemSet<Name> {
    let mut set = ItemSet::new();
    for text in texts {
        set.insert(Name::from(*text));
    }
    set
}

fn labels(texts: &[&str]) -> ItemSet<Label> {
    let mut set = ItemSet::new();
    for text in texts {
        set.insert(Label::from(*text));
    }
    set
}

fn alpha_then_beta() -> Collection {
    let mut collection = Collection::new();
    let a = Entity::new(
        parsed("https://x"),
        calendar(2020, Month::January, 10),
        Some(Name::from("Alpha")),
        ItemSet::new(),
    );
    let id = collection.merge(a);
    assert_eq!(usize::from(id), 0);
    assert_eq!(collection.len(), 1);
    let b = Entity::new(
        parsed("https://x"),
        calendar(2020, Month::January, 5),
        Some(Name::from("Beta")),
        labels(&["l1"]),
    );
    let id = collection.merge(b);
    assert_eq!(usize::from(id), 0);
    assert_eq!(collection.len(), 1);
    collection
}

#[test]
fn second_sighting_of_a_page_is_folded_into_the_first() {
    let collection = alpha_then_beta();
    let id = collection.id(&parsed("https://x")).unwrap();
    assert_eq!(usize::from(id), 0);
    let entity = collection.entity(id);
    assert_eq!(*entity.created_at(), calendar(2020, Month::January, 5));
    assert_eq!(entity.updated_at().len(), 1);
    assert!(entity.updated_at().contains(&calendar(2020, Month::January, 10)));
    assert_eq!(*entity.names(), names(&["Alpha", "Beta"]));
    assert_eq!(entity.names().len(), 2);
    assert_eq!(*entity.labels(), labels(&["l1"]));
    assert_eq!(entity.labels().len(), 1);
    assert_eq!(entity.url().as_str(), "https://x/");
}

#[test]
fn page_with_a_new_url_is_a_new_entity_and_links_are_held_once() {
    let mut collection = alpha_then_beta();
    let first = collection.id(&parsed("https://x")).unwrap();
    let c = Entity::new(parsed("https://y"), calendar(2020, Month::January, 7), None, ItemSet::new());
    let second = collection.merge(c);
    assert_eq!(usize::from(second), 1);
    assert_eq!(collection.len(), 2);
    collection.add_edge(first, second);
    collection.add_edge(first, second);
    assert_eq!(collection.edges(first), &[second]);
    assert_eq!(collection.edges(first).len(), 1);
    assert!(collection.edges(second).is_empty());
}

#[test]
fn urls_that_parse_to_one_serialization_are_one_page() {
    let mut collection = Collection::new();
    let a = collection.merge(Entity::new(
        parsed("https://x"),
        calendar(2020, Month::January, 10),
        None,
        ItemSet::new(),
    ));
    let b = collection.merge(Entity::new(
        parsed("HTTPS://X:443/"),
        calendar(2020, Month::January, 5),
        None,
        ItemSet::new(),
    ));
    let c = collection.merge(Entity::new(
        parsed("https://x/a/../"),
        calendar(2020, Month::January, 1),
        None,
        ItemSet::new(),
    ));
    assert_eq!(a, b);
    assert_eq!(a, c);
    assert_eq!(collection.len(), 1);
    assert!(collection.contains(&parsed("https://x/")));
    assert!(!collection.contains(&parsed("http://x/")));
    assert_eq!(*collection.entity(a).created_at(), calendar(2020, Month::January, 1));
}
