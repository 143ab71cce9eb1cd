//! The doctrine loader: strict top-down validation of a document tree.
//!
//! A document is a sequence of mappings, each holding a `name` key (a text
//! scalar) and a `categories` key (a sequence of mappings, each holding a
//! `category` key whose value is the ship list).  Any structural deviation
//! fails the whole parse with a descriptive [`ParseError`]; there are no
//! partial results.

use crate::node::{lookup, spec_lookup, spec_text, MapEntry, Node};
use vstd::prelude::*;

verus! {

/// A named grouping of categories.
#[derive(Debug, PartialEq)]
pub struct Doctrine {
    pub name: String,
    pub categories: Vec<Category>,
}

/// One grouping of item (ship) names, in document order.
#[derive(Debug, PartialEq)]
pub struct Category {
    pub ships: Vec<String>,
}

/// The required key that an error is about.
#[derive(Clone, Copy, Debug, PartialEq, Eq, Structural)]
pub enum Field {
    Name,
    Categories,
    Category,
}

/// Every way the input can be malformed.  The first error encountered
/// aborts the entire parse.
#[derive(Clone, Copy, Debug, PartialEq, Eq, Structural)]
pub enum ParseError {
    /// Expected a list node, found something else.
    NotASequence,
    /// Expected a map node, found something else.
    NotAMapping,
    /// A required key is absent from a mapping.
    MissingField(Field),
    /// A key is present but its value is not a text scalar.
    WrongType(Field),
}

/// The mathematical value of a [`Category`].
pub struct CategoryV {
    pub ships: Seq<Seq<char>>,
}

/// The mathematical value of a [`Doctrine`].
pub struct DoctrineV {
    pub name: Seq<char>,
    pub categories: Seq<CategoryV>,
}

impl View for Category {
    type V = CategoryV;

    open spec fn view(&self) -> CategoryV {
        CategoryV { ships: self.ships.deep_view() }
    }
}

impl DeepView for Category {
    type V = CategoryV;

    open spec fn deep_view(&self) -> CategoryV {
        self.view()
    }
}

impl View for Doctrine {
    type V = DoctrineV;

    open spec fn view(&self) -> DoctrineV {
        DoctrineV { name: self.name@, categories: self.categories.deep_view() }
    }
}

impl DeepView for Doctrine {
    type V = DoctrineV;

    open spec fn deep_view(&self) -> DoctrineV {
        self.view()
    }
}

/// A parse result, seen through the values' views: what the contracts of
/// the executable functions equate with the specification-level parse.
pub open spec fn parsed<T: DeepView>(r: Result<T, ParseError>) -> Result<T::V, ParseError> {
    match r {
        Ok(v) => Ok(v.deep_view()),
        Err(e) => Err(e),
    }
}

/// The ship list denoted by a node: a sequence yields the texts of its
/// elements (an element that is not a text scalar is an error); any other
/// node yields the empty list.
pub open spec fn spec_ships(n: Node) -> Result<Seq<Seq<char>>, ParseError> {
    match n {
        Node::Sequence(items) => spec_ships_from(items@, 0),
        _ => Ok(Seq::empty()),
    }
}

/// The texts of `items[i..]`, or the first element that is no text.
pub open spec fn spec_ships_from(items: Seq<Node>, i: int) -> Result<Seq<Seq<char>>, ParseError>
    decreases items.len() - i,
{
    if i < 0 || i >= items.len() {
        Ok(Seq::empty())
    } else {
        match spec_text(items[i]) {
            None => Err(ParseError::WrongType(Field::Category)),
            Some(t) => match spec_ships_from(items, i + 1) {
                Err(e) => Err(e),
                Ok(rest) => Ok(seq![t] + rest),
            },
        }
    }
}

/// The category denoted by the entries of a category mapping.
pub open spec fn spec_category_entries(entries: Seq<MapEntry>) -> Result<CategoryV, ParseError> {
    match spec_lookup(entries, "category"@) {
        None => Err(ParseError::MissingField(Field::Category)),
        Some(v) => match spec_ships(v) {
            Err(e) => Err(e),
            Ok(ships) => Ok(CategoryV { ships }),
        },
    }
}

/// The category denoted by a node, which must be a mapping.
pub open spec fn spec_category(n: Node) -> Result<CategoryV, ParseError> {
    match n {
        Node::Mapping(entries) => spec_category_entries(entries@),
        _ => Err(ParseError::NotAMapping),
    }
}

/// The categories denoted by a node, which must be a sequence.
pub open spec fn spec_categories(n: Node) -> Result<Seq<CategoryV>, ParseError> {
    match n {
        Node::Sequence(items) => spec_categories_from(items@, 0),
        _ => Err(ParseError::NotASequence),
    }
}

/// The categories denoted by `items[i..]`, or the first element's error.
pub open spec fn spec_categories_from(items: Seq<Node>, i: int) -> Result<
    Seq<CategoryV>,
    ParseError,
>
    decreases items.len() - i,
{
    if i < 0 || i >= items.len() {
        Ok(Seq::empty())
    } else {
        match spec_category(items[i]) {
            Err(e) => Err(e),
            Ok(c) => match spec_categories_from(items, i + 1) {
                Err(e) => Err(e),
                Ok(rest) => Ok(seq![c] + rest),
            },
        }
    }
}

/// The doctrine denoted by the entries of a doctrine mapping: a `name`
/// key holding a text scalar, and a `categories` key holding the
/// category list.  Remaining keys are ignored.
pub open spec fn spec_doctrine_entries(entries: Seq<MapEntry>) -> Result<DoctrineV, ParseError> {
    match spec_lookup(entries, "name"@) {
        None => Err(ParseError::MissingField(Field::Name)),
        Some(nv) => match spec_text(nv) {
            None => Err(ParseError::WrongType(Field::Name)),
            Some(name) => match spec_lookup(entries, "categories"@) {
                None => Err(ParseError::MissingField(Field::Categories)),
                Some(cv) => match spec_categories(cv) {
                    Err(e) => Err(e),
                    Ok(categories) => Ok(DoctrineV { name, categories }),
                },
            },
        },
    }
}

/// The doctrine denoted by a node, which must be a mapping.
pub open spec fn spec_doctrine(n: Node) -> Result<DoctrineV, ParseError> {
    match n {
        Node::Mapping(entries) => spec_doctrine_entries(entries@),
        _ => Err(ParseError::NotAMapping),
    }
}

/// The doctrines denoted by a node, which must be a sequence.
pub open spec fn spec_doctrines(n: Node) -> Result<Seq<DoctrineV>, ParseError> {
    match n {
        Node::Sequence(items) => spec_doctrines_from(items@, 0),
        _ => Err(ParseError::NotASequence),
    }
}

/// The doctrines denoted by `items[i..]`, or the first element's error.
pub open spec fn spec_doctrines_from(items: Seq<Node>, i: int) -> Result<
    Seq<DoctrineV>,
    ParseError,
>
    decreases items.len() - i,
{
    if i < 0 || i >= items.len() {
        Ok(Seq::empty())
    } else {
        match spec_doctrine(items[i]) {
            Err(e) => Err(e),
            Ok(d) => match spec_doctrines_from(items, i + 1) {
                Err(e) => Err(e),
                Ok(rest) => Ok(seq![d] + rest),
            },
        }
    }
}

/// The texts of the elements of `items`, where every element is a text
/// scalar; the first offending element's error otherwise.
pub fn load_ships(node: &Node) -> (r: Result<Vec<String>, ParseError>)
    ensures
        parsed(r) == spec_ships(*node),
{
    match node {
        Node::Sequence(items) => {
            let mut ships: Vec<String> = Vec::new();
            let mut i: usize = 0;
            proof {
                assert(ships.deep_view() =~= Seq::<Seq<char>>::empty());
                match spec_ships_from(items@, 0) {
                    Ok(rest) => {
                        assert(ships.deep_view() + rest =~= rest);
                    },
                    Err(_) => {},
                }
            }
            while i < items.len()
                invariant
                    0 <= i <= items@.len(),
                    *node == Node::Sequence(*items),
                    spec_ships_from(items@, 0) == (match spec_ships_from(items@, i as int) {
                        Ok(rest) => Ok::<Seq<Seq<char>>, ParseError>(ships.deep_view() + rest),
                        Err(e) => Err::<Seq<Seq<char>>, ParseError>(e),
                    }),
                decreases items@.len() - i,
            {
                match items[i].as_text() {
                    Some(s) => {
                        let ghost old_ships = ships.deep_view();
                        ships.push(s.clone());
                        proof {
                            assert(ships.deep_view() =~= old_ships.push(s@));
                            match spec_ships_from(items@, i + 1) {
                                Ok(rest) => {
                                    assert(old_ships + (seq![s@] + rest) =~= ships.deep_view()
                                        + rest);
                                },
                                Err(_) => {},
                            }
                        }
                    },
                    None => {
                        return Err(ParseError::WrongType(Field::Category));
                    },
                }
                i += 1;
            }
            proof {
                assert(ships.deep_view() + Seq::<Seq<char>>::empty() =~= ships.deep_view());
            }
            Ok(ships)
        },
        _ => {
            let ships: Vec<String> = Vec::new();
            proof {
                assert(ships.deep_view() =~= Seq::<Seq<char>>::empty());
            }
            Ok(ships)
        },
    }
}

/// The category held by the entries of a category mapping: the value of
/// its `category` key, read as a ship list.
pub fn load_category(entries: &Vec<MapEntry>) -> (r: Result<Category, ParseError>)
    ensures
        parsed(r) == spec_category_entries(entries@),
{
    let key: String = "category".to_owned();
    match lookup(entries, &key) {
        None => Err(ParseError::MissingField(Field::Category)),
        Some(v) => match load_ships(v) {
            Err(e) => Err(e),
            Ok(ships) => Ok(Category { ships }),
        },
    }
}

impl Category {
    /// One category from a node, which must be a mapping holding a
    /// `category` key.
    pub fn from_yaml(node: &Node) -> (r: Result<Category, ParseError>)
        ensures
            parsed(r) == spec_category(*node),
    {
        match node {
            Node::Mapping(entries) => load_category(entries),
            _ => Err(ParseError::NotAMapping),
        }
    }

    /// All categories from a node, which must be a sequence of category
    /// mappings.  The first failing element fails the whole call.
    pub fn many_from_yaml(node: &Node) -> (r: Result<Vec<Category>, ParseError>)
        ensures
            parsed(r) == spec_categories(*node),
    {
        match node {
            Node::Sequence(items) => {
                let mut categories: Vec<Category> = Vec::new();
                let mut i: usize = 0;
                proof {
                    assert(categories.deep_view() =~= Seq::<CategoryV>::empty());
                    match spec_categories_from(items@, 0) {
                        Ok(rest) => {
                            assert(categories.deep_view() + rest =~= rest);
                        },
                        Err(_) => {},
                    }
                }
                while i < items.len()
                    invariant
                        0 <= i <= items@.len(),
                        *node == Node::Sequence(*items),
                        spec_categories_from(items@, 0) == (match spec_categories_from(
                            items@,
                            i as int,
                        ) {
                            Ok(rest) => Ok::<Seq<CategoryV>, ParseError>(
                                categories.deep_view() + rest,
                            ),
                            Err(e) => Err::<Seq<CategoryV>, ParseError>(e),
                        }),
                    decreases items@.len() - i,
                {
                    match Self::from_yaml(&items[i]) {
                        Ok(c) => {
                            let ghost old_cats = categories.deep_view();
                            let ghost cv = c.deep_view();
                            categories.push(c);
                            proof {
                                assert(categories.deep_view() =~= old_cats.push(cv));
                                match spec_categories_from(items@, i + 1) {
                                    Ok(rest) => {
                                        assert(old_cats + (seq![cv] + rest)
                                            =~= categories.deep_view() + rest);
                                    },
                                    Err(_) => {},
                                }
                            }
                        },
                        Err(e) => {
                            return Err(e);
                        },
                    }
                    i += 1;
                }
                proof {
                    assert(categories.deep_view() + Seq::<CategoryV>::empty()
                        =~= categories.deep_view());
                }
                Ok(categories)
            },
            _ => Err(ParseError::NotASequence),
        }
    }
}

/// The doctrine held by the entries of a doctrine mapping: its `name`
/// text and its parsed `categories` list.  Keys beyond those two are
/// ignored, forward-compatibly.
pub fn load_doctrine(entries: &Vec<MapEntry>) -> (r: Result<Doctrine, ParseError>)
    ensures
        parsed(r) == spec_doctrine_entries(entries@),
{
    let name_key: String = "name".to_owned();
    let name: String = match lookup(entries, &name_key) {
        None => {
            return Err(ParseError::MissingField(Field::Name));
        },
        Some(nv) => match nv.as_text() {
            None => {
                return Err(ParseError::WrongType(Field::Name));
            },
            Some(s) => s.clone(),
        },
    };
    let categories_key: String = "categories".to_owned();
    match lookup(entries, &categories_key) {
        None => Err(ParseError::MissingField(Field::Categories)),
        Some(cv) => match Category::many_from_yaml(cv) {
            Err(e) => Err(e),
            Ok(categories) => Ok(Doctrine { name, categories }),
        },
    }
}

impl Doctrine {
    /// One doctrine from a node, which must be a mapping holding `name`
    /// and `categories` keys.
    pub fn from_yaml(node: &Node) -> (r: Result<Doctrine, ParseError>)
        ensures
            parsed(r) == spec_doctrine(*node),
    {
        match node {
            Node::Mapping(entries) => load_doctrine(entries),
            _ => Err(ParseError::NotAMapping),
        }
    }

    /// All doctrines from a document node, which must be a sequence of
    /// doctrine mappings, in document order.  The first failing element
    /// fails the whole call: no partial list is ever returned.
    pub fn many_from_yaml(node: &Node) -> (r: Result<Vec<Doctrine>, ParseError>)
        ensures
            parsed(r) == spec_doctrines(*node),
    {
        match node {
            Node::Sequence(items) => {
                let mut doctrines: Vec<Doctrine> = Vec::new();
                let mut i: usize = 0;
                proof {
                    assert(doctrines.deep_view() =~= Seq::<DoctrineV>::empty());
                    match spec_doctrines_from(items@, 0) {
                        Ok(rest) => {
                            assert(doctrines.deep_view() + rest =~= rest);
                        },
                        Err(_) => {},
                    }
                }
                while i < items.len()
                    invariant
                        0 <= i <= items@.len(),
                        *node == Node::Sequence(*items),
                        spec_doctrines_from(items@, 0) == (match spec_doctrines_from(
                            items@,
                            i as int,
                        ) {
                            Ok(rest) => Ok::<Seq<DoctrineV>, ParseError>(
                                doctrines.deep_view() + rest,
                            ),
                            Err(e) => Err::<Seq<DoctrineV>, ParseError>(e),
                        }),
                    decreases items@.len() - i,
                {
                    match Self::from_yaml(&items[i]) {
                        Ok(d) => {
                            let ghost old_ds = doctrines.deep_view();
                            let ghost dv = d.deep_view();
                            doctrines.push(d);
                            proof {
                                assert(doctrines.deep_view() =~= old_ds.push(dv));
                                match spec_doctrines_from(items@, i + 1) {
                                    Ok(rest) => {
                                        assert(old_ds + (seq![dv] + rest)
                                            =~= doctrines.deep_view() + rest);
                                    },
                                    Err(_) => {},
                                }
                            }
                        },
                        Err(e) => {
                            return Err(e);
                        },
                    }
                    i += 1;
                }
                proof {
                    assert(doctrines.deep_view() + Seq::<DoctrineV>::empty()
                        =~= doctrines.deep_view());
                }
                Ok(doctrines)
            },
            _ => Err(ParseError::NotASequence),
        }
    }
}

} // verus!
