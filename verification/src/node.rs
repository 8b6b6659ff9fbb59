//! The document tree: an untyped value as parsed from a configuration
//! document or from the reference schema. Keys are strings; values are
//! scalars, sequences, or nested mappings. A numeric scalar is kept in its
//! textual form: the validator never reads numbers, only keys and strings.

use vstd::prelude::*;

verus! {

/// One node of a document or schema tree.
#[derive(Debug)]
pub enum Node {
    Null,
    Bool(bool),
    /// A numeric scalar, kept as the text it was written as.
    Num(String),
    Str(String),
    Arr(Vec<Node>),
    /// A mapping, in the order the source document gives its keys.
    Obj(Vec<(String, Node)>),
}

/// The value the first entry with the given key maps to, if any.
pub open spec fn obj_lookup(entries: Seq<(String, Node)>, key: Seq<char>) -> Option<Node>
    decreases entries.len(),
{
    if entries.len() == 0 {
        None::<Node>
    } else if entries[0].0@ == key {
        Some(entries[0].1)
    } else {
        obj_lookup(entries.drop_first(), key)
    }
}

/// The value at `key` in a mapping node; `None` on any other kind of node.
pub open spec fn node_get(n: Node, key: Seq<char>) -> Option<Node> {
    match n {
        Node::Obj(entries) => obj_lookup(entries@, key),
        _ => None,
    }
}

/// Whether the node is a mapping that contains `key`.
pub open spec fn has_key(n: Node, key: Seq<char>) -> bool {
    node_get(n, key) is Some
}

impl Node {
    /// Looks the key up in a mapping node, first match first.
    pub fn get<'a>(&'a self, key: &str) -> (r: Option<&'a Node>)
        ensures
            match r {
                Some(v) => node_get(*self, key@) == Some(*v),
                None => node_get(*self, key@) is None,
            },
    {
        let k: String = key.to_owned();
        match self {
            Node::Obj(entries) => {
                proof {
                    assert(entries@.skip(0) =~= entries@);
                }
                let n = entries.len();
                let mut i: usize = 0;
                while i < n
                    invariant
                        *self == Node::Obj(*entries),
                        n == entries.len(),
                        i <= n,
                        k@ == key@,
                        obj_lookup(entries@, key@) == obj_lookup(entries@.skip(i as int), key@),
                    decreases n - i,
                {
                    proof {
                        assert(entries@.skip(i as int)[0] == entries@[i as int]);
                        assert(entries@.skip(i as int).drop_first() =~= entries@.skip(i as int + 1));
                    }
                    if entries[i].0.eq(&k) {
                        proof {
                            assert(obj_lookup(entries@.skip(i as int), key@)
                                == Some(entries@[i as int].1));
                            assert(obj_lookup(entries@, key@) == Some(entries@[i as int].1));
                        }
                        return Some(&entries[i].1);
                    }
                    i += 1;
                }
                None
            },
            _ => None,
        }
    }
}

} // verus!
