//! The generic document tree that the loader consumes.
//!
//! A configuration document, as handed over by whatever parsed it from
//! text, is a tree of three node kinds: scalars, sequences and mappings.
//! The loader never sees the textual form; it walks this tree.

use vstd::prelude::*;

verus! {

/// One node of a parsed configuration document: a scalar (carrying its
/// text when it is a text scalar, and nothing otherwise), an ordered
/// sequence of nodes, or a mapping from string keys to nodes.
#[derive(Debug)]
pub enum Node {
    Scalar(Option<String>),
    Sequence(Vec<Node>),
    Mapping(Vec<MapEntry>),
}

/// One key/value pair of a mapping node.  Entries keep document order.
#[derive(Debug)]
pub struct MapEntry {
    pub key: String,
    pub value: Node,
}

/// The text of a node: `Some` exactly when the node is a text scalar.
pub open spec fn spec_text(n: Node) -> Option<Seq<char>> {
    match n {
        Node::Scalar(t) => match t {
            Some(s) => Some(s@),
            None => None,
        },
        _ => None,
    }
}

/// The value under `key`: the first entry whose key matches, if any.
pub open spec fn spec_lookup(entries: Seq<MapEntry>, key: Seq<char>) -> Option<Node>
    decreases entries.len(),
{
    if entries.len() == 0 {
        None
    } else if entries[0].key@ == key {
        Some(entries[0].value)
    } else {
        spec_lookup(entries.drop_first(), key)
    }
}

impl Node {
    /// The scalar's text, where this node is a text scalar.
    pub fn as_text(&self) -> (r: Option<&String>)
        ensures
            match r {
                Some(s) => spec_text(*self) == Some(s@),
                None => spec_text(*self) is None,
            },
    {
        match self {
            Node::Scalar(Some(s)) => Some(s),
            _ => None,
        }
    }

    /// The elements, where this node is a sequence.
    pub fn as_sequence(&self) -> (r: Option<&Vec<Node>>)
        ensures
            match r {
                Some(items) => *self == Node::Sequence(*items),
                None => !(*self matches Node::Sequence(_)),
            },
    {
        match self {
            Node::Sequence(items) => Some(items),
            _ => None,
        }
    }

    /// The entries, where this node is a mapping.
    pub fn as_mapping(&self) -> (r: Option<&Vec<MapEntry>>)
        ensures
            match r {
                Some(entries) => *self == Node::Mapping(*entries),
                None => !(*self matches Node::Mapping(_)),
            },
    {
        match self {
            Node::Mapping(entries) => Some(entries),
            _ => None,
        }
    }
}

/// The first entry of `entries` whose key equals `key`, if any.
pub fn lookup<'a>(entries: &'a Vec<MapEntry>, key: &String) -> (r: Option<&'a Node>)
    ensures
        match r {
            Some(v) => spec_lookup(entries@, key@) == Some(*v),
            None => spec_lookup(entries@, key@) is None,
        },
{
    let mut i: usize = 0;
    proof {
        assert(entries@.skip(0) =~= entries@);
    }
    while i < entries.len()
        invariant
            0 <= i <= entries@.len(),
            spec_lookup(entries@, key@) == spec_lookup(entries@.skip(i as int), key@),
        decreases entries@.len() - i,
    {
        if entries[i].key == *key {
            assert(entries@.skip(i as int)[0] == entries@[i as int]);
            return Some(&entries[i].value);
        }
        proof {
            assert(entries@.skip(i as int).drop_first() =~= entries@.skip(i as int + 1));
        }
        i += 1;
    }
    None
}

} // verus!
