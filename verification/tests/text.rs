use page_collection::{Label, Name, PageUrl};

#[test]
fn name_keeps_its_text() {
    let name = Name::new("Alpha".to_string());
    assert_eq!(name.as_str(), "Alpha");
}

#[test]
fn label_keeps_its_text() {
    let label = Label::new("l1".to_string());
    assert_eq!(label.as_str(), "l1");
}

#[test]
fn page_url_keeps_its_text() {
    let url = PageUrl::new("https://x/".to_string());
    assert_eq!(url.as_str(), "https://x/");
}

#[test]
fn name_from_str_and_from_string_agree_with_new() {
    assert_eq!(Name::from("Alpha"), Name::new("Alpha".to_string()));
    assert_eq!(Name::from("Alpha".to_string()), Name::new("Alpha".to_string()));
    assert_eq!(Name::from("Alpha").as_str(), "Alpha");
}

#[test]
fn label_from_str_and_from_string_agree_with_new() {
    assert_eq!(Label::from("l1"), Label::new("l1".to_string()));
    assert_eq!(Label::from("l1".to_string()), Label::new("l1".to_string()));
    assert_eq!(Label::from("l1").as_str(), "l1");
}

#[test]
fn names_are_equal_by_text() {
    assert_eq!(Name::from("Alpha"), Name::from("Alpha"));
    assert_ne!(Name::from("Alpha"), Name::from("alpha"));
    assert_ne!(Name::from("Alpha"), Name::from(""));
}

#[test]
fn labels_are_equal_by_text() {
    assert_eq!(Label::from("l1"), Label::from("l1"));
    assert_ne!(Label::from("l1"), Label::from("l2"));
}

#[test]
fn page_urls_are_equal_by_text() {
    let a = PageUrl::new("https://x/".to_string());
    let b = PageUrl::new("https://x/".to_string());
    let c = PageUrl::new("https://x/a".to_string());
    assert_eq!(a, b);
    assert_ne!(a, c);
}

#[test]
fn clones_have_the_same_text() {
    let name = Name::from("Alpha");
    let label = Label::from("l1");
    let url = PageUrl::new("https://x/".to_string());
    assert_eq!(name.clone(), name);
    assert_eq!(label.clone(), label);
    assert_eq!(url.clone(), url);
    assert_eq!(url.clone().as_str(), "https://x/");
}

#[test]
fn empty_text_is_a_name() {
    let name = Name::new(String::new());
    assert_eq!(name.as_str(), "");
}

#[test]
fn debug_shows_the_text() {
    assert_eq!(format!("{:?}", Name::from("Alpha")), "Name(\"Alpha\")");
    assert_eq!(format!("{:?}", Label::from("l1")), "Label(\"l1\")");
}

#[test]
fn page_url_takes_the_serialization_of_a_parsed_url() {
    let parsed = url::Url::parse("HTTPS://X").unwrap();
    let url = PageUrl::new(String::from(parsed));
    assert_eq!(url.as_str(), "https://x/");
    let again = url::Url::parse("https://x/").unwrap();
    assert_eq!(PageUrl::new(String::from(again)), url);
}
