//! Laws of the loader, stated and proved once and for all inputs.
//!
//! Each proof function below states one guarantee of the parse as a whole:
//! what a conforming document yields, how tolerant corners behave, and
//! which error each kind of malformed input produces.  The executable
//! functions' contracts equate their results with the `spec_*` functions
//! these laws speak of.

use crate::doctrine::{
    spec_categories, spec_categories_from, spec_category, spec_category_entries, spec_doctrine,
    spec_doctrine_entries, spec_doctrines, spec_doctrines_from, spec_ships, spec_ships_from,
    CategoryV, DoctrineV, Field, ParseError,
};
use crate::node::{spec_lookup, spec_text, MapEntry, Node};
use vstd::prelude::*;

verus! {

/// A node of the conforming ship-list shape: a sequence of text scalars.
pub open spec fn valid_ship_list(n: Node) -> bool {
    match n {
        Node::Sequence(items) => forall|i: int|
            0 <= i < items@.len() ==> spec_text(#[trigger] items@[i]) is Some,
        _ => false,
    }
}

/// A node of the conforming category-entry shape: a mapping whose
/// `category` key holds a ship list.
pub open spec fn valid_category_entry(n: Node) -> bool {
    match n {
        Node::Mapping(entries) => match spec_lookup(entries@, "category"@) {
            Some(v) => valid_ship_list(v),
            None => false,
        },
        _ => false,
    }
}

/// A node of the conforming category-list shape: a sequence of category
/// entries.
pub open spec fn valid_category_list(n: Node) -> bool {
    match n {
        Node::Sequence(items) => forall|i: int|
            0 <= i < items@.len() ==> valid_category_entry(#[trigger] items@[i]),
        _ => false,
    }
}

/// A node of the conforming doctrine-entry shape: a mapping whose `name`
/// key holds a text scalar and whose `categories` key holds a category
/// list.
pub open spec fn valid_doctrine_entry(n: Node) -> bool {
    match n {
        Node::Mapping(entries) => {
            &&& (match spec_lookup(entries@, "name"@) {
                Some(nv) => spec_text(nv) is Some,
                None => false,
            })
            &&& (match spec_lookup(entries@, "categories"@) {
                Some(cv) => valid_category_list(cv),
                None => false,
            })
        },
        _ => false,
    }
}

/// A document of the conforming shape: a sequence of doctrine entries.
pub open spec fn valid_document(n: Node) -> bool {
    match n {
        Node::Sequence(items) => forall|i: int|
            0 <= i < items@.len() ==> valid_doctrine_entry(#[trigger] items@[i]),
        _ => false,
    }
}

proof fn lemma_ships_from_ok(items: Seq<Node>, i: int)
    requires
        0 <= i <= items.len(),
        forall|j: int| i <= j < items.len() ==> spec_text(#[trigger] items[j]) is Some,
    ensures
        spec_ships_from(items, i) is Ok,
    decreases items.len() - i,
{
    if i < items.len() {
        lemma_ships_from_ok(items, i + 1);
    }
}

/// LAW: a conforming ship list parses without error.
pub proof fn lemma_valid_ship_list_parses(n: Node)
    requires
        valid_ship_list(n),
    ensures
        spec_ships(n) is Ok,
{
    match n {
        Node::Sequence(items) => lemma_ships_from_ok(items@, 0),
        _ => {},
    }
}

/// LAW: a conforming category entry parses without error.
pub proof fn lemma_valid_category_parses(n: Node)
    requires
        valid_category_entry(n),
    ensures
        spec_category(n) is Ok,
{
    match n {
        Node::Mapping(entries) => {
            match spec_lookup(entries@, "category"@) {
                Some(v) => lemma_valid_ship_list_parses(v),
                None => {},
            }
        },
        _ => {},
    }
}

proof fn lemma_categories_from_ok(items: Seq<Node>, i: int)
    requires
        0 <= i <= items.len(),
        forall|j: int| i <= j < items.len() ==> valid_category_entry(#[trigger] items[j]),
    ensures
        spec_categories_from(items, i) is Ok,
    decreases items.len() - i,
{
    if i < items.len() {
        lemma_valid_category_parses(items[i]);
        lemma_categories_from_ok(items, i + 1);
    }
}

/// LAW: a conforming category list parses without error.
pub proof fn lemma_valid_category_list_parses(n: Node)
    requires
        valid_category_list(n),
    ensures
        spec_categories(n) is Ok,
{
    match n {
        Node::Sequence(items) => lemma_categories_from_ok(items@, 0),
        _ => {},
    }
}

/// LAW: a conforming doctrine entry parses without error.
pub proof fn lemma_valid_doctrine_parses(n: Node)
    requires
        valid_doctrine_entry(n),
    ensures
        spec_doctrine(n) is Ok,
{
    match n {
        Node::Mapping(entries) => {
            match spec_lookup(entries@, "categories"@) {
                Some(cv) => lemma_valid_category_list_parses(cv),
                None => {},
            }
        },
        _ => {},
    }
}

proof fn lemma_doctrines_from_ok(items: Seq<Node>, i: int)
    requires
        0 <= i <= items.len(),
        forall|j: int| i <= j < items.len() ==> spec_doctrine(#[trigger] items[j]) is Ok,
    ensures
        spec_doctrines_from(items, i) is Ok,
        spec_doctrines_from(items, i)->Ok_0.len() == items.len() - i,
        forall|j: int|
            i <= j < items.len() ==> Ok::<DoctrineV, ParseError>(
                #[trigger] spec_doctrines_from(items, i)->Ok_0[j - i],
            ) == spec_doctrine(items[j]),
    decreases items.len() - i,
{
    if i < items.len() {
        lemma_doctrines_from_ok(items, i + 1);
        let d = spec_doctrine(items[i])->Ok_0;
        let rest = spec_doctrines_from(items, i + 1)->Ok_0;
        assert(spec_doctrines_from(items, i)->Ok_0 == seq![d] + rest);
        assert forall|j: int| i <= j < items.len() implies Ok::<DoctrineV, ParseError>(
            #[trigger] spec_doctrines_from(items, i)->Ok_0[j - i],
        ) == spec_doctrine(items[j]) by {
            if j == i {
                assert((seq![d] + rest)[0] == d);
            } else {
                assert(Ok::<DoctrineV, ParseError>(rest[j - (i + 1)]) == spec_doctrine(items[j]));
                assert((seq![d] + rest)[j - i] == rest[j - i - 1]);
            }
        }
    }
}

/// LAW: a document of the conforming shape parses in full: one doctrine
/// per top-level entry, in document order — the result's length equals
/// the number of entries, and the doctrine at each position is the parse
/// of the entry at that position.
pub proof fn lemma_valid_document_parses(n: Node)
    requires
        valid_document(n),
    ensures
        spec_doctrines(n) is Ok,
        (match n {
            Node::Sequence(items) => {
                &&& spec_doctrines(n)->Ok_0.len() == items@.len()
                &&& forall|i: int|
                    0 <= i < items@.len() ==> Ok::<DoctrineV, ParseError>(
                        #[trigger] spec_doctrines(n)->Ok_0[i],
                    ) == spec_doctrine(items@[i])
            },
            _ => false,
        }),
{
    match n {
        Node::Sequence(items) => {
            assert forall|i: int| 0 <= i < items@.len() implies spec_doctrine(
                #[trigger] items@[i],
            ) is Ok by {
                lemma_valid_doctrine_parses(items@[i]);
            }
            lemma_doctrines_from_ok(items@, 0);
            assert forall|i: int| 0 <= i < items@.len() implies Ok::<DoctrineV, ParseError>(
                #[trigger] spec_doctrines(n)->Ok_0[i],
            ) == spec_doctrine(items@[i]) by {
                assert(Ok::<DoctrineV, ParseError>(spec_doctrines_from(items@, 0)->Ok_0[i - 0])
                    == spec_doctrine(items@[i]));
            }
        },
        _ => {},
    }
}

/// LAW: an empty ship list is tolerated: a category entry whose
/// `category` key holds a sequence of zero items parses to a category
/// with no ships.
pub proof fn lemma_empty_list_tolerated(n: Node)
    requires
        n matches Node::Mapping(entries) && (spec_lookup(entries@, "category"@) matches Some(v)
            && (v matches Node::Sequence(items) && items@.len() == 0)),
    ensures
        spec_category(n) == Ok::<CategoryV, ParseError>(CategoryV { ships: Seq::empty() }),
{
}

/// LAW: a `category` value that is no sequence at all also yields an
/// empty ship list rather than an error.
pub proof fn lemma_non_sequence_ships_empty(n: Node)
    requires
        !(n matches Node::Sequence(_)),
    ensures
        spec_ships(n) == Ok::<Seq<Seq<char>>, ParseError>(Seq::empty()),
{
}

/// LAW: two category entries whose `category` keys hold the identical
/// list node — as a resolved reference in the source document does —
/// parse to the same result, so their categories carry equal ships
/// content.
pub proof fn lemma_shared_list_equal_ships(c1: Node, c2: Node)
    requires
        c1 matches Node::Mapping(e1) && (c2 matches Node::Mapping(e2) && spec_lookup(
            e1@,
            "category"@,
        ) == spec_lookup(e2@, "category"@)),
    ensures
        spec_category(c1) == spec_category(c2),
{
}

proof fn lemma_first_error_from(items: Seq<Node>, k: int, i: int, e: ParseError)
    requires
        0 <= k <= i < items.len(),
        forall|j: int| k <= j < i ==> spec_doctrine(#[trigger] items[j]) is Ok,
        spec_doctrine(items[i]) == Err::<DoctrineV, ParseError>(e),
    ensures
        spec_doctrines_from(items, k) == Err::<Seq<DoctrineV>, ParseError>(e),
    decreases i - k,
{
    if k < i {
        lemma_first_error_from(items, k + 1, i, e);
    }
}

/// LAW: the first failing entry fails the whole parse with its own
/// error; no partial doctrine list is returned.
pub proof fn lemma_first_error_aborts(n: Node, i: int, e: ParseError)
    requires
        n matches Node::Sequence(items) && {
            &&& 0 <= i < items@.len()
            &&& forall|j: int| 0 <= j < i ==> spec_doctrine(#[trigger] items@[j]) is Ok
            &&& spec_doctrine(items@[i]) == Err::<DoctrineV, ParseError>(e)
        },
    ensures
        spec_doctrines(n) == Err::<Seq<DoctrineV>, ParseError>(e),
{
    match n {
        Node::Sequence(items) => lemma_first_error_from(items@, 0, i, e),
        _ => {},
    }
}

/// LAW: a doctrine entry whose mapping lacks the `name` key fails the
/// whole parse with `MissingField(Name)`, provided every earlier entry
/// parses; no partial doctrine list is returned.
pub proof fn lemma_missing_name_fails(n: Node, i: int)
    requires
        n matches Node::Sequence(items) && {
            &&& 0 <= i < items@.len()
            &&& forall|j: int| 0 <= j < i ==> spec_doctrine(#[trigger] items@[j]) is Ok
            &&& items@[i] matches Node::Mapping(entries) && spec_lookup(entries@, "name"@) is None
        },
    ensures
        spec_doctrines(n) == Err::<Seq<DoctrineV>, ParseError>(
            ParseError::MissingField(Field::Name),
        ),
{
    lemma_first_error_aborts(n, i, ParseError::MissingField(Field::Name));
}

/// LAW: a doctrine mapping with a text `name` but no `categories` key
/// parses to `MissingField(Categories)`.
pub proof fn lemma_missing_categories_fails(entries: Seq<MapEntry>)
    requires
        spec_lookup(entries, "name"@) matches Some(nv) && spec_text(nv) is Some,
        spec_lookup(entries, "categories"@) is None,
    ensures
        spec_doctrine_entries(entries) == Err::<DoctrineV, ParseError>(
            ParseError::MissingField(Field::Categories),
        ),
{
}

/// LAW: a category mapping without the `category` key parses to
/// `MissingField(Category)`.
pub proof fn lemma_missing_category_fails(entries: Seq<MapEntry>)
    requires
        spec_lookup(entries, "category"@) is None,
    ensures
        spec_category_entries(entries) == Err::<CategoryV, ParseError>(
            ParseError::MissingField(Field::Category),
        ),
{
}

} // verus!
