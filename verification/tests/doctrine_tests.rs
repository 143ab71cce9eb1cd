use xup::doctrine::{Category, Doctrine};
use xup::node::{MapEntry, Node};
use yaml_rust::{Yaml, YamlLoader};

/// Converts a parsed YAML tree into the library's document tree.  Text
/// scalars keep their text; other scalars (numbers, booleans, nulls) carry
/// none; mapping entries keep document order, and only string keys are
/// kept, since the loader looks up string keys alone.
fn node_of(y: Yaml) -> Node {
    match y {
        Yaml::String(s) => Node::Scalar(Some(s)),
        Yaml::Array(items) => Node::Sequence(items.into_iter().map(node_of).collect()),
        Yaml::Hash(h) => Node::Mapping(
            h.into_iter()
                .filter_map(|(k, v)| {
                    k.into_string().map(|key| MapEntry { key, value: node_of(v) })
                })
                .collect(),
        ),
        _ => Node::Scalar(None),
    }
}

fn quick_parse(s: &str) -> Node {
    node_of(
        YamlLoader::load_from_str(&s)
            .expect("Couldn't parse test YAML")
            .swap_remove(0),
    )
}

#[test]
fn test_parse_categories() {
    let yaml = quick_parse(
        r#"
- category:
    [
    Blackbird,
    Celestis,
    Maller,
    ]
"#,
    );

    let res = Category::many_from_yaml(&yaml);
    assert_eq!(
        res,
        Ok(vec![Category {
            ships: vec!["Blackbird".into(), "Celestis".into(), "Maller".into()]
        },])
    );
}

#[test]
fn test_parse_empty_category() {
    let yaml = quick_parse(
        r#"
- category:
    [
    # empty
    ]
- category:
    [Blackbird]
"#,
    );

    let res = Category::many_from_yaml(&yaml);
    assert_eq!(
        res,
        Ok(vec![
            Category { ships: vec![] },
            Category { ships: vec!["Blackbird".into()] },
        ])
    );
}

#[test]
fn test_parse_doctrines() {
    let yaml = quick_parse(
        r#"
- name: Armor Battleships
  categories:
  - category:
      [
      Blackbird,
      Celestis,
      Maller,
     ]
"#,
    );

    let res = Doctrine::many_from_yaml(&yaml);
    assert_eq!(
        res,
        Ok(vec![Doctrine {
            name: "Armor Battleships".into(),
            categories: vec![Category {
                ships: vec![
                    "Blackbird".into(),
                    "Celestis".into(),
                    "Maller".into()
                ]
            },]
        },])
    );
}

#[test]
fn test_parse_doctrines_with_anchors() {
    let yaml = quick_parse(
        r#"
- name: Armor Battleships
  categories:
  - category: &ewar
      [
      Blackbird,
      Celestis,
      Maller,
      ]
- name: Armor Confessors
  categories:
  - category: *ewar
"#,
    );

    let res = Doctrine::many_from_yaml(&yaml);
    assert_eq!(
        res,
        Ok(vec![
            Doctrine {
                name: "Armor Battleships".into(),
                categories: vec![Category {
                    ships: vec![
                        "Blackbird".into(),
                        "Celestis".into(),
                        "Maller".into()
                    ]
                },]
            },
            Doctrine {
                name: "Armor Confessors".into(),
                categories: vec![Category {
                    ships: vec![
                        "Blackbird".into(),
                        "Celestis".into(),
                        "Maller".into()
                    ]
                },]
            },
        ])
    );
}

#[test]
fn test_aliased_lists_are_independent_copies() {
    let yaml = quick_parse(
        r#"
- name: Armor Battleships
  categories:
  - category: &ewar
      [
      Blackbird,
      Celestis,
      Maller,
      ]
- name: Armor Confessors
  categories:
  - category: *ewar
"#,
    );

    let mut res = Doctrine::many_from_yaml(&yaml).expect("conforming document");
    assert_eq!(res[0].categories[0].ships, res[1].categories[0].ships);
    // Mutating one copy must not affect the other.
    res[0].categories[0].ships.push("Osprey".into());
    assert_eq!(
        res[1].categories[0].ships,
        vec![
            String::from("Blackbird"),
            String::from("Celestis"),
            String::from("Maller")
        ]
    );
}

#[test]
fn test_name_not_text_is_wrong_type() {
    let yaml = quick_parse(
        r#"
- name: 42
  categories: []
"#,
    );

    let res = Doctrine::many_from_yaml(&yaml);
    assert_eq!(
        res,
        Err(xup::doctrine::ParseError::WrongType(
            xup::doctrine::Field::Name
        ))
    );
}
