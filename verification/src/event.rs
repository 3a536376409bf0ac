//! What a watcher of a table of the store is told: a key was set to a
//! value, or a key was removed.
use vstd::prelude::*;

verus! {

/// A change to a key that a watcher is interested in.
#[derive(Debug, Clone, PartialEq, Eq, PartialOrd, Ord)]
pub enum DBEvent<K, V> {
    /// The key was set to the value.
    Insert { key: K, value: V },
    /// The key was removed.
    Remove { key: K },
}

impl<K, V> DBEvent<K, V> {
    /// The key the change is about.
    pub fn key(&self) -> (r: &K)
        ensures
            match self {
                DBEvent::Insert { key, .. } => *r == *key,
                DBEvent::Remove { key } => *r == *key,
            },
    {
        match self {
            DBEvent::Insert { key, .. } => key,
            DBEvent::Remove { key } => key,
        }
    }
}

} // verus!
