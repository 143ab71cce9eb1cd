use xup::doctrine::{Category, Doctrine, Field, ParseError};
use xup::node::{MapEntry, Node};
use xup::render::{ships, xup};

fn text(s: &str) -> Node {
    Node::Scalar(Some(s.to_string()))
}

fn entry(key: &str, value: Node) -> MapEntry {
    MapEntry {
        key: key.to_string(),
        value,
    }
}

fn doctrine_entry(name: &str, categories: Node) -> Node {
    Node::Mapping(vec![entry("name", text(name)), entry("categories", categories)])
}

fn category_entry(ship_names: Vec<&str>) -> Node {
    Node::Mapping(vec![entry(
        "category",
        Node::Sequence(ship_names.into_iter().map(text).collect()),
    )])
}

#[test]
fn top_level_must_be_a_sequence() {
    let res = Doctrine::many_from_yaml(&Node::Scalar(Some("oops".to_string())));
    assert_eq!(res, Err(ParseError::NotASequence));
}

#[test]
fn doctrine_entry_must_be_a_mapping() {
    let doc = Node::Sequence(vec![text("oops")]);
    assert_eq!(Doctrine::many_from_yaml(&doc), Err(ParseError::NotAMapping));
}

#[test]
fn missing_name_fails_whole_parse() {
    let doc = Node::Sequence(vec![
        doctrine_entry("Fine", Node::Sequence(vec![])),
        Node::Mapping(vec![entry("categories", Node::Sequence(vec![]))]),
    ]);
    assert_eq!(
        Doctrine::many_from_yaml(&doc),
        Err(ParseError::MissingField(Field::Name))
    );
}

#[test]
fn non_text_name_is_wrong_type() {
    let doc = Node::Sequence(vec![Node::Mapping(vec![
        entry("name", Node::Scalar(None)),
        entry("categories", Node::Sequence(vec![])),
    ])]);
    assert_eq!(
        Doctrine::many_from_yaml(&doc),
        Err(ParseError::WrongType(Field::Name))
    );
}

#[test]
fn missing_categories_fails() {
    let doc = Node::Sequence(vec![Node::Mapping(vec![entry("name", text("Solo"))])]);
    assert_eq!(
        Doctrine::many_from_yaml(&doc),
        Err(ParseError::MissingField(Field::Categories))
    );
}

#[test]
fn categories_must_be_a_sequence() {
    let doc = Node::Sequence(vec![doctrine_entry("Solo", text("oops"))]);
    assert_eq!(
        Doctrine::many_from_yaml(&doc),
        Err(ParseError::NotASequence)
    );
}

#[test]
fn category_entry_must_be_a_mapping() {
    let doc = Node::Sequence(vec![doctrine_entry(
        "Solo",
        Node::Sequence(vec![text("oops")]),
    )]);
    assert_eq!(Doctrine::many_from_yaml(&doc), Err(ParseError::NotAMapping));
}

#[test]
fn missing_category_key_fails() {
    let doc = Node::Sequence(vec![doctrine_entry(
        "Solo",
        Node::Sequence(vec![Node::Mapping(vec![entry(
            "misnamed",
            Node::Sequence(vec![]),
        )])]),
    )]);
    assert_eq!(
        Doctrine::many_from_yaml(&doc),
        Err(ParseError::MissingField(Field::Category))
    );
}

#[test]
fn non_text_ship_is_wrong_type() {
    let doc = Node::Sequence(vec![doctrine_entry(
        "Solo",
        Node::Sequence(vec![Node::Mapping(vec![entry(
            "category",
            Node::Sequence(vec![Node::Scalar(None)]),
        )])]),
    )]);
    assert_eq!(
        Doctrine::many_from_yaml(&doc),
        Err(ParseError::WrongType(Field::Category))
    );
}

#[test]
fn non_sequence_category_value_is_tolerated_as_empty() {
    let doc = Node::Sequence(vec![Node::Mapping(vec![entry("category", text("oops"))])]);
    assert_eq!(
        Category::many_from_yaml(&doc),
        Ok(vec![Category { ships: vec![] }])
    );
}

#[test]
fn extra_keys_are_ignored() {
    let doc = Node::Sequence(vec![Node::Mapping(vec![
        entry("fleet", text("unknown")),
        entry("name", text("Solo")),
        entry("categories", Node::Sequence(vec![])),
        entry("comment", Node::Scalar(None)),
    ])]);
    assert_eq!(
        Doctrine::many_from_yaml(&doc),
        Ok(vec![Doctrine {
            name: "Solo".to_string(),
            categories: vec![]
        }])
    );
}

#[test]
fn order_and_length_are_preserved() {
    let doc = Node::Sequence(vec![
        doctrine_entry("First", Node::Sequence(vec![category_entry(vec!["A"])])),
        doctrine_entry("Second", Node::Sequence(vec![])),
        doctrine_entry("Third", Node::Sequence(vec![category_entry(vec![])])),
    ]);
    let res = Doctrine::many_from_yaml(&doc).expect("conforming document");
    assert_eq!(res.len(), 3);
    assert_eq!(res[0].name, "First");
    assert_eq!(res[1].name, "Second");
    assert_eq!(res[2].name, "Third");
}

#[test]
fn ships_concatenates_categories_in_order() {
    let doc = Node::Sequence(vec![doctrine_entry(
        "Mixed",
        Node::Sequence(vec![
            category_entry(vec!["Blackbird", "Celestis"]),
            category_entry(vec![]),
            category_entry(vec!["Maller"]),
        ]),
    )]);
    let res = Doctrine::many_from_yaml(&doc).expect("conforming document");
    assert_eq!(
        ships(&res[0]),
        vec![
            String::from("Blackbird"),
            String::from("Celestis"),
            String::from("Maller")
        ]
    );
}

#[test]
fn xup_joins_ship_names_with_slashes() {
    let doctrine = Doctrine {
        name: "Armor Battleships".to_string(),
        categories: vec![Category {
            ships: vec![
                "Blackbird".to_string(),
                "Celestis".to_string(),
                "Maller".to_string(),
            ],
        }],
    };
    assert_eq!(xup(&doctrine), "x Blackbird / Celestis / Maller");
}

#[test]
fn xup_of_empty_doctrine_is_bare_prefix() {
    let doctrine = Doctrine {
        name: "Empty".to_string(),
        categories: vec![],
    };
    assert_eq!(xup(&doctrine), "x ");
}

#[test]
fn empty_category_list_parses_to_no_ships() {
    let doc = Node::Sequence(vec![category_entry(vec![])]);
    assert_eq!(
        Category::many_from_yaml(&doc),
        Ok(vec![Category { ships: vec![] }])
    );
}

#[test]
fn accessors_report_node_kind() {
    let m = Node::Mapping(vec![entry("k", text("v"))]);
    assert!(m.as_mapping().is_some());
    assert!(m.as_sequence().is_none());
    assert!(m.as_text().is_none());
    let s = Node::Sequence(vec![]);
    assert!(s.as_sequence().is_some());
    assert!(s.as_mapping().is_none());
    let t = text("v");
    assert_eq!(t.as_text().map(|s| s.as_str()), Some("v"));
    assert!(Node::Scalar(None).as_text().is_none());
}
