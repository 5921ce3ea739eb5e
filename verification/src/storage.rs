//! The static asset store: served documents and images keyed by path.
//!
//! An explicit store object keyed by path text, with unique keys: storing
//! under an existing path replaces its asset, storing under a new path
//! adds it. The host's persistent memory holds the store; its byte codec
//! lives with the host.
use vstd::prelude::*;

verus! {

/// One stored document: its response headers and body bytes.
#[derive(Debug)]
pub struct Asset {
    pub headers: Vec<(String, String)>,
    pub body: Vec<u8>,
}

/// Assets keyed by path text, keys unique.
#[derive(Debug)]
pub struct AssetStore {
    entries: Vec<(String, Asset)>,
}

impl AssetStore {
    /// The stored entries.
    pub closed spec fn view(&self) -> Seq<(String, Asset)> {
        self.entries@
    }

    /// Paths are unique.
    pub open spec fn wf(&self) -> bool {
        forall|i: int, j: int|
            0 <= i < j < self@.len() ==> (#[trigger] self@[i].0)@ != (#[trigger] self@[j].0)@
    }

    /// Some asset is stored under the path.
    pub open spec fn spec_contains_path(&self, p: Seq<char>) -> bool {
        exists|i: int| 0 <= i < self@.len() && (#[trigger] self@[i].0)@ == p
    }

    /// An empty store.
    pub fn new() -> (r: AssetStore)
        ensures
            r@ =~= Seq::<(String, Asset)>::empty(),
            r.wf(),
    {
        AssetStore { entries: Vec::new() }
    }

    /// Position of the path's entry, if one is stored.
    fn find_index(&self, path: &String) -> (r: Option<usize>)
        ensures
            r matches Some(i) ==> i < self@.len() && self@[i as int].0@ == path@,
            r is None ==> !self.spec_contains_path(path@),
    {
        let mut i: usize = 0;
        while i < self.entries.len()
            invariant
                i <= self@.len(),
                forall|j: int| 0 <= j < i ==> (#[trigger] self@[j].0)@ != path@,
            decreases self@.len() - i,
        {
            if self.entries[i].0 == *path {
                return Some(i);
            }
            i = i + 1;
        }
        None
    }
}

/// Stores an asset under a path: an existing path keeps its position and
/// gets the new asset, a new path is appended. Every other entry is
/// untouched.
pub fn store_asset(store: &mut AssetStore, path: String, asset: Asset)
    requires
        old(store).wf(),
    ensures
        final(store).wf(),
        final(store).spec_contains_path(path@),
        old(store).spec_contains_path(path@) ==> exists|i: int|
            0 <= i < old(store)@.len() && old(store)@[i].0@ == path@ && #[trigger] final(store)@ =~= old(store)@.update(i, (path, asset)),
        !old(store).spec_contains_path(path@) ==> final(store)@ =~= old(store)@.push(
            (path, asset),
        ),
{
    let found = store.find_index(&path);
    match found {
        Some(i) => {
            let ghost gpath = path;
            store.entries.set(i, (path, asset));
            proof {
                assert(store@[i as int].0@ == gpath@);
                assert(store@[i as int].0@ == old(store)@[i as int].0@);
                assert forall|a: int, b: int| 0 <= a < b < store@.len() implies (
                #[trigger] store@[a].0)@ != (#[trigger] store@[b].0)@ by {
                    assert(old(store)@[a].0@ != old(store)@[b].0@);
                    if a != i {
                        assert(store@[a].0@ == old(store)@[a].0@);
                    }
                    if b != i {
                        assert(store@[b].0@ == old(store)@[b].0@);
                    }
                }
            }
        },
        None => {
            let ghost gpath = path;
            store.entries.push((path, asset));
            proof {
                assert(store@[store@.len() - 1].0@ == gpath@);
                assert forall|a: int, b: int| 0 <= a < b < store@.len() implies (
                #[trigger] store@[a].0)@ != (#[trigger] store@[b].0)@ by {
                    if b < store@.len() - 1 {
                        assert(old(store)@[a].0@ != old(store)@[b].0@);
                    } else {
                        assert(old(store)@[a].0@ != gpath@);
                    }
                }
            }
        },
    }
}

/// Looks a path up: the asset stored under it, or nothing.
pub fn get_asset<'a>(store: &'a AssetStore, path: &String) -> (r: Option<&'a Asset>)
    requires
        store.wf(),
    ensures
        r is Some <==> store.spec_contains_path(path@),
        r matches Some(a) ==> exists|i: int|
            0 <= i < store@.len() && (#[trigger] store@[i].0)@ == path@ && *a == store@[i].1,
{
    match store.find_index(path) {
        Some(i) => {
            let entry = store.entry_ref(i);
            Some(entry)
        },
        None => None,
    }
}

impl AssetStore {
    /// The asset at a position.
    fn entry_ref(&self, i: usize) -> (r: &Asset)
        requires
            i < self@.len(),
        ensures
            *r == self@[i as int].1,
    {
        &self.entries[i].1
    }
}

} // verus!
