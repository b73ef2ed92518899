//! The inodes that a traversal has already handled.
//!
//! An object with several hard links is reached once per link. The registry
//! remembers the first path under which each such object was seen, so that the
//! other paths are skipped.

use crate::ownership::FileIdentity;
use std::collections::HashMap;
use vstd::prelude::*;

verus! {

/// What the registry holds after `path` was presented with `identity` and
/// `link_count`: a first sighting of a multiply linked object is recorded,
/// anything else leaves `seen` as it is.
pub open spec fn registered(
    seen: Map<FileIdentity, Seq<char>>,
    identity: FileIdentity,
    path: Seq<char>,
    link_count: u64,
) -> Map<FileIdentity, Seq<char>> {
    if link_count > 1 && !seen.contains_key(identity) {
        seen.insert(identity, path)
    } else {
        seen
    }
}

/// Whether a path presented with `identity` and `link_count` is skipped: its
/// object has several links and one of them was recorded before.
pub open spec fn skipped(
    seen: Map<FileIdentity, Seq<char>>,
    identity: FileIdentity,
    link_count: u64,
) -> bool {
    link_count > 1 && seen.contains_key(identity)
}

/// The key under which an identity is stored: device and inode side by side.
spec fn key_of(identity: FileIdentity) -> u128 {
    (identity.device_id as u128 * 0x1_0000_0000_0000_0000u128
        + identity.inode_number as u128) as u128
}

/// Two identities with one key are one identity.
proof fn lemma_key_of_injective(a: FileIdentity, b: FileIdentity)
    requires
        key_of(a) == key_of(b),
    ensures
        a == b,
{
}

/// From each registered identity to the first path seen with it.
#[derive(Debug)]
pub struct InodeRegistry {
    seen: HashMap<u128, String>,
}

impl View for InodeRegistry {
    type V = Map<FileIdentity, Seq<char>>;

    closed spec fn view(&self) -> Map<FileIdentity, Seq<char>> {
        Map::new(
            |identity: FileIdentity| self.seen@.contains_key(key_of(identity)),
            |identity: FileIdentity| self.seen@[key_of(identity)]@,
        )
    }
}

impl InodeRegistry {
    /// A registry that holds nothing.
    pub fn new() -> (registry: InodeRegistry)
        ensures
            registry@ == Map::<FileIdentity, Seq<char>>::empty(),
    {
        InodeRegistry { seen: HashMap::new() }
    }

    /// The key under which `identity` is stored.
    fn key(identity: FileIdentity) -> (key: u128)
        ensures
            key == key_of(identity),
    {
        (identity.device_id as u128) * 0x1_0000_0000_0000_0000u128 + (identity.inode_number as u128)
    }

    /// Whether `identity` is registered.
    pub fn contains(&self, identity: FileIdentity) -> (found: bool)
        ensures
            found == self@.contains_key(identity),
    {
        broadcast use vstd::std_specs::hash::group_hash_axioms;

        let key = Self::key(identity);
        self.seen.contains_key(&key)
    }

    /// The first path seen with `identity`, if it is registered.
    pub fn first_path(&self, identity: FileIdentity) -> (path: Option<String>)
        ensures
            path is Some == self@.contains_key(identity),
            path matches Some(p) ==> p@ == self@[identity],
    {
        broadcast use vstd::std_specs::hash::group_hash_axioms;

        let key = Self::key(identity);
        match self.seen.get(&key) {
            Some(path) => Some(path.clone()),
            None => None,
        }
    }

    /// Presents `path` with the identity and link count that were read for it,
    /// and says whether the path is to be skipped.
    ///
    /// An object with a single link is never recorded nor skipped. Of an object
    /// with several links the first path presented is recorded and processed;
    /// every later one is skipped and leaves the recorded path as it is.
    pub fn check_and_register(&mut self, identity: FileIdentity, path: &str, link_count: u64) -> (skip:
        bool)
        ensures
            skip == skipped(old(self)@, identity, link_count),
            final(self)@ == registered(old(self)@, identity, path@, link_count),
    {
        broadcast use vstd::std_specs::hash::group_hash_axioms;

        if link_count <= 1 {
            return false;
        }
        let key = Self::key(identity);
        if self.seen.contains_key(&key) {
            return true;
        }
        self.seen.insert(key, String::from_str(path));
        assert(self@ =~= old(self)@.insert(identity, path@)) by {
            assert forall|other: FileIdentity| key_of(other) == key implies other == identity by {
                lemma_key_of_injective(other, identity);
            }
        }
        false
    }
}

/// Two paths of one object with several links: whichever is presented first is
/// processed and recorded, and the one presented second is skipped.
pub proof fn lemma_second_link_is_skipped(
    seen: Map<FileIdentity, Seq<char>>,
    identity: FileIdentity,
    first: Seq<char>,
    second: Seq<char>,
    link_count: u64,
)
    requires
        link_count > 1,
        !seen.contains_key(identity),
    ensures
        !skipped(seen, identity, link_count),
        skipped(registered(seen, identity, first, link_count), identity, link_count),
        registered(registered(seen, identity, first, link_count), identity, second, link_count)
            == registered(seen, identity, first, link_count),
        registered(seen, identity, first, link_count)[identity] == first,
{
}

/// An object with a single link is never skipped and never recorded.
pub proof fn lemma_single_link_is_not_tracked(
    seen: Map<FileIdentity, Seq<char>>,
    identity: FileIdentity,
    path: Seq<char>,
    link_count: u64,
)
    requires
        link_count <= 1,
    ensures
        !skipped(seen, identity, link_count),
        registered(seen, identity, path, link_count) == seen,
{
}

/// The registry only grows, and the path recorded for an identity never
/// changes: what was registered before a path is presented is registered
/// after it, with the same path.
pub proof fn lemma_registry_grows(
    seen: Map<FileIdentity, Seq<char>>,
    identity: FileIdentity,
    path: Seq<char>,
    link_count: u64,
)
    ensures
        seen.submap_of(registered(seen, identity, path, link_count)),
{
}

} // verus!
