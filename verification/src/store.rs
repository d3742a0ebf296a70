//! The blob store: blobs kept under a root directory, each at the path that a transform
//! derives from its key.
//!
//! The directory is held as a table from relative paths to contents. A driver that
//! persists the store replays each operation at `fullpath` on its file system.

use vstd::prelude::*;
use vstd::slice::*;
use vstd::string::*;

verus! {

/// Why a store operation failed.
#[derive(Clone, Copy, Debug, PartialEq, Eq, Structural)]
pub enum StoreError {
    /// No blob, or no root directory, where one was asked for.
    NotFound,
}

/// How a store is set up.
pub struct StoreOpts<F> {
    /// The directory that holds the blobs.
    pub root_dir: String,
    /// The transform from a key to the blob's path below `root_dir`.
    pub filename_transform: F,
}

/// One blob and its path below the root directory.
struct StoredFile {
    path: String,
    data: Vec<u8>,
}

/// The store. `F` is its transform, a pure function from keys to relative paths.
pub struct Store<F> {
    opts: StoreOpts<F>,
    root_exists: bool,
    entries: Vec<StoredFile>,
}

/// What a store holds: whether its root directory exists, and the blobs by relative path.
pub ghost struct StoreModel {
    pub root_exists: bool,
    pub files: Map<Seq<char>, Seq<u8>>,
}

impl StoreModel {
    /// A store before its first write: no root directory, no blobs.
    pub open spec fn fresh() -> StoreModel {
        StoreModel { root_exists: false, files: Map::empty() }
    }

    /// The store after a write: the root directory exists and `path` holds `data`.
    pub open spec fn write(self, path: Seq<char>, data: Seq<u8>) -> StoreModel {
        StoreModel { root_exists: true, files: self.files.insert(path, data) }
    }

    /// What a read of `path` gives.
    pub open spec fn read(self, path: Seq<char>) -> Result<Seq<u8>, StoreError> {
        if self.files.contains_key(path) {
            Ok(self.files[path])
        } else {
            Err(StoreError::NotFound)
        }
    }

    /// The store after a delete of `path`, and whether the delete succeeds.
    pub open spec fn delete(self, path: Seq<char>) -> (StoreModel, Result<(), StoreError>) {
        if self.files.contains_key(path) {
            (StoreModel { root_exists: self.root_exists, files: self.files.remove(path) }, Ok(()))
        } else {
            (self, Err(StoreError::NotFound))
        }
    }

    /// The store after a clear, and whether the clear succeeds.
    pub open spec fn clear(self) -> (StoreModel, Result<(), StoreError>) {
        if self.root_exists {
            (StoreModel::fresh(), Ok(()))
        } else {
            (self, Err(StoreError::NotFound))
        }
    }
}

/// A transform is pure: keys with equal contents get paths with equal contents.
pub open spec fn pure_transform<F: Fn(String) -> String>(f: F) -> bool {
    forall|k1: String, k2: String, p1: String, p2: String|
        k1@ == k2@ && #[trigger] f.ensures((k1,), p1) && #[trigger] f.ensures((k2,), p2) ==> p1@
            == p2@
}

/// Longest key, in bytes of UTF-8, that every transform of a store is asked to take.
pub const KEY_LEN_LIMIT: u64 = 0x1fff_ffff_ffff_ffff;

/// A transform takes every key of at most `KEY_LEN_LIMIT` bytes.
pub open spec fn takes_keys<F: Fn(String) -> String>(f: F) -> bool {
    forall|k: String|
        vstd::utf8::encode_utf8(k@).len() <= KEY_LEN_LIMIT ==> #[trigger] f.requires((k,))
}

/// `path` is what the transform makes of `key`.
pub open spec fn transforms_to<F: Fn(String) -> String>(
    f: F,
    key: Seq<char>,
    path: Seq<char>,
) -> bool {
    exists|k: String, p: String| k@ == key && p@ == path && #[trigger] f.ensures((k,), p)
}

/// The path of `key` under the transform `f`.
pub open spec fn transformed<F: Fn(String) -> String>(f: F, key: Seq<char>) -> Seq<char> {
    choose|path: Seq<char>| transforms_to(f, key, path)
}

/// A pure transform has one path for each key: whatever path a call of it gives for a
/// key is the path of that key.
pub proof fn lemma_transformed<F: Fn(String) -> String>(f: F, key: String, path: String)
    requires
        pure_transform(f),
        f.ensures((key,), path),
    ensures
        transformed(f, key@) == path@,
{
    assert(transforms_to(f, key@, path@));
    let chosen = transformed(f, key@);
    assert(transforms_to(f, key@, chosen));
    let (k2, p2) = choose|k2: String, p2: String|
        k2@ == key@ && p2@ == chosen && #[trigger] f.ensures((k2,), p2);
    assert(f.ensures((k2,), p2));
}

/// The path of `key` under a root directory.
pub open spec fn joined(root_dir: Seq<char>, relative: Seq<char>) -> Seq<char> {
    root_dir + seq!['/'] + relative
}

impl<F: Fn(String) -> String> View for Store<F> {
    type V = StoreModel;

    closed spec fn view(&self) -> StoreModel {
        StoreModel {
            root_exists: self.root_exists,
            files: Map::new(
                |p: Seq<char>| self.holds(p),
                |p: Seq<char>| self.entries@[self.index_of(p)].data@,
            ),
        }
    }
}

impl<F: Fn(String) -> String> Store<F> {
    spec fn holds(&self, path: Seq<char>) -> bool {
        exists|i: int| 0 <= i < self.entries@.len() && #[trigger] self.entries@[i].path@ == path
    }

    spec fn index_of(&self, path: Seq<char>) -> int {
        choose|i: int| 0 <= i < self.entries@.len() && #[trigger] self.entries@[i].path@ == path
    }

    /// The store is valid: its transform is pure, no path is held twice, and blobs exist
    /// only below an existing root directory.
    pub closed spec fn wf(&self) -> bool {
        &&& pure_transform(self.opts.filename_transform)
        &&& forall|i: int, j: int|
            0 <= i < j < self.entries@.len() ==> #[trigger] self.entries@[i].path@
                != #[trigger] self.entries@[j].path@
        &&& !self.root_exists ==> self.entries@.len() == 0
    }

    /// The root directory.
    pub closed spec fn root_dir(&self) -> Seq<char> {
        self.opts.root_dir@
    }

    /// The relative path at which the store keeps `key`.
    pub closed spec fn path_of(&self, key: Seq<char>) -> Seq<char> {
        transformed(self.opts.filename_transform, key)
    }

    /// Whether the transform accepts `key`.
    pub closed spec fn accepts(&self, key: String) -> bool {
        self.opts.filename_transform.requires((key,))
    }

    /// A store over `opts`, with nothing written yet.
    pub fn new(opts: StoreOpts<F>) -> (store: Store<F>)
        requires
            pure_transform(opts.filename_transform),
        ensures
            store.wf(),
            store@ == StoreModel::fresh(),
            store.root_dir() == opts.root_dir@,
            forall|key: Seq<char>|
                #[trigger] store.path_of(key) == transformed(opts.filename_transform, key),
            forall|key: String|
                #[trigger] store.accepts(key) == opts.filename_transform.requires((key,)),
    {
        let store = Store { opts, root_exists: false, entries: Vec::new() };
        assert(store@.files =~= Map::<Seq<char>, Seq<u8>>::empty());
        store
    }

    /// The relative path of `key`: what the transform makes of it.
    fn relative_path(&self, key: String) -> (path: String)
        requires
            self.wf(),
            self.accepts(key),
        ensures
            path@ == self.path_of(key@),
    {
        let ghost k = key;
        let path = (self.opts.filename_transform)(key);
        proof {
            lemma_transformed(self.opts.filename_transform, k, path);
        }
        path
    }

    /// Where the blob of `key` lies: the root directory, a `/`, and the key's relative path.
    pub fn fullpath(&self, key: String) -> (path: String)
        requires
            self.wf(),
            self.accepts(key),
        ensures
            path@ == joined(self.root_dir(), self.path_of(key@)),
    {
        let relative = self.relative_path(key);
        let mut path = self.opts.root_dir.clone();
        proof {
            reveal_strlit("/");
        }
        path.append("/");
        path.append(relative.as_str());
        assert(path@ =~= joined(self.root_dir(), self.path_of(key@)));
        path
    }

    /// The position of the blob at `path`, if the store holds one.
    fn find(&self, path: &String) -> (at: Option<usize>)
        requires
            self.wf(),
        ensures
            match at {
                Some(i) => i < self.entries@.len() && self.entries@[i as int].path@ == path@
                    && self@.files.contains_key(path@) && self@.files[path@]
                    == self.entries@[i as int].data@,
                None => !self@.files.contains_key(path@),
            },
    {
        let mut i: usize = 0;
        while i < self.entries.len()
            invariant
                self.wf(),
                i <= self.entries@.len(),
                forall|j: int| 0 <= j < i ==> #[trigger] self.entries@[j].path@ != path@,
            decreases self.entries@.len() - i,
        {
            if self.entries[i].path == *path {
                assert(self.holds(path@));
                assert(self.index_of(path@) == i);
                return Some(i);
            }
            i += 1;
        }
        None
    }

    /// Reads the blob of `key`; `NotFound` where there is none.
    pub fn read(&self, key: String) -> (r: Result<Vec<u8>, StoreError>)
        requires
            self.wf(),
            self.accepts(key),
        ensures
            match r {
                Ok(data) => self@.read(self.path_of(key@)) == Ok::<Seq<u8>, StoreError>(data@),
                Err(e) => self@.read(self.path_of(key@)) == Err::<Seq<u8>, StoreError>(e),
            },
    {
        match self.read_stream(key) {
            Ok(data) => Ok(slice_to_vec(data.as_slice())),
            Err(e) => Err(e),
        }
    }

    /// Lends the blob of `key` without copying it; `NotFound` where there is none.
    pub fn read_stream(&self, key: String) -> (r: Result<&Vec<u8>, StoreError>)
        requires
            self.wf(),
            self.accepts(key),
        ensures
            match r {
                Ok(data) => self@.read(self.path_of(key@)) == Ok::<Seq<u8>, StoreError>(data@),
                Err(e) => self@.read(self.path_of(key@)) == Err::<Seq<u8>, StoreError>(e),
            },
    {
        let path = self.relative_path(key);
        match self.find(&path) {
            Some(i) => Ok(&self.entries[i].data),
            None => Err(StoreError::NotFound),
        }
    }

    /// Writes `data` as the blob of `key`, in place of any blob at the same path; creates
    /// the root directory where it is missing.
    pub fn write(&mut self, key: String, data: &[u8]) -> (r: Result<(), StoreError>)
        requires
            old(self).wf(),
            old(self).accepts(key),
        ensures
            r is Ok,
            final(self).wf(),
            final(self)@ == old(self)@.write(old(self).path_of(key@), data@),
            final(self).root_dir() == old(self).root_dir(),
            forall|k: Seq<char>| #[trigger] final(self).path_of(k) == old(self).path_of(k),
            forall|k: String| #[trigger] final(self).accepts(k) == old(self).accepts(k),
    {
        let path = self.relative_path(key);
        let found = self.find(&path);
        let ghost before = *self;
        let blob = slice_to_vec(data);
        match found {
            Some(i) => {
                self.entries.remove(i);
                self.entries.insert(i, StoredFile { path, data: blob });
            },
            None => {
                self.entries.push(StoredFile { path, data: blob });
            },
        }
        self.root_exists = true;
        proof {
            let wanted = before@.write(before.path_of(key@), data@);
            assert forall|p: Seq<char>| self.holds(p) <==> wanted.files.contains_key(p) by {
                if self.holds(p) {
                    let i = self.index_of(p);
                    if p != path@ {
                        assert(before.entries@[i].path@ == p);
                        assert(before.holds(p));
                    }
                }
                if wanted.files.contains_key(p) {
                    if p == path@ {
                        match found {
                            Some(i) => {
                                assert(self.entries@[i as int].path@ == p);
                            },
                            None => {
                                assert(self.entries@[self.entries@.len() - 1].path@ == p);
                            },
                        }
                    } else {
                        let i = before.index_of(p);
                        assert(self.entries@[i].path@ == p);
                    }
                }
            }
            assert forall|p: Seq<char>| self.holds(p) implies self.entries@[self.index_of(
                p,
            )].data@ == wanted.files[p] by {
                let i = self.index_of(p);
                if p != path@ {
                    assert(before.entries@[i].path@ == p);
                    assert(before.holds(p));
                    let j = before.index_of(p);
                    assert(i == j);
                }
            }
            assert(self@.files =~= wanted.files);
        }
        Ok(())
    }

    /// Deletes the blob of `key`; `NotFound` where there is none.
    pub fn delete(&mut self, key: String) -> (r: Result<(), StoreError>)
        requires
            old(self).wf(),
            old(self).accepts(key),
        ensures
            final(self).wf(),
            (final(self)@, r) == old(self)@.delete(old(self).path_of(key@)),
            final(self).root_dir() == old(self).root_dir(),
            forall|k: Seq<char>| #[trigger] final(self).path_of(k) == old(self).path_of(k),
            forall|k: String| #[trigger] final(self).accepts(k) == old(self).accepts(k),
    {
        let path = self.relative_path(key);
        let ghost before = *self;
        match self.find(&path) {
            Some(i) => {
                self.entries.remove(i);
                proof {
                    let wanted = before@.delete(path@).0;
                    assert forall|p: Seq<char>| self.holds(p) <==> wanted.files.contains_key(
                        p,
                    ) by {
                        if self.holds(p) {
                            let j = self.index_of(p);
                            if j < i {
                                assert(before.entries@[j].path@ == p);
                            } else {
                                assert(before.entries@[j + 1].path@ == p);
                            }
                            assert(before.holds(p));
                        }
                        if wanted.files.contains_key(p) {
                            let j = before.index_of(p);
                            if j < i {
                                assert(self.entries@[j].path@ == p);
                            } else {
                                assert(self.entries@[j - 1].path@ == p);
                            }
                        }
                    }
                    assert forall|p: Seq<char>| self.holds(p) implies self.entries@[self.index_of(
                        p,
                    )].data@ == wanted.files[p] by {
                        let j = self.index_of(p);
                        let b = if j < i { j } else { j + 1 };
                        assert(before.entries@[b].path@ == p);
                        assert(before.holds(p));
                        assert(before.index_of(p) == b);
                    }
                    assert(self@.files =~= wanted.files);
                }
                Ok(())
            },
            None => Err(StoreError::NotFound),
        }
    }

    /// Removes the root directory with everything below it; `NotFound` where there is no
    /// root directory.
    pub fn clear(&mut self) -> (r: Result<(), StoreError>)
        requires
            old(self).wf(),
        ensures
            final(self).wf(),
            (final(self)@, r) == old(self)@.clear(),
            final(self).root_dir() == old(self).root_dir(),
            forall|k: Seq<char>| #[trigger] final(self).path_of(k) == old(self).path_of(k),
            forall|k: String| #[trigger] final(self).accepts(k) == old(self).accepts(k),
    {
        if !self.root_exists {
            return Err(StoreError::NotFound);
        }
        self.entries.clear();
        self.root_exists = false;
        assert(self@.files =~= Map::<Seq<char>, Seq<u8>>::empty());
        Ok(())
    }
}

/// A blob that was written is the blob that is read: whatever the store held, a read of
/// a path after a write to it gives the bytes written, the empty blob included.
pub proof fn lemma_read_after_write(store: StoreModel, path: Seq<char>, data: Seq<u8>)
    ensures
        store.write(path, data).read(path) == Ok::<Seq<u8>, StoreError>(data),
{
}

/// The last writer wins: of two writes to one path, a read gives the second.
pub proof fn lemma_last_write_wins(
    store: StoreModel,
    path: Seq<char>,
    first: Seq<u8>,
    second: Seq<u8>,
)
    ensures
        store.write(path, first).write(path, second).read(path) == Ok::<Seq<u8>, StoreError>(
            second,
        ),
        store.write(path, first).write(path, second) == store.write(path, second),
{
    assert(store.files.insert(path, first).insert(path, second) =~= store.files.insert(
        path,
        second,
    ));
}

/// Keys that the transform sends to one path share one blob: a write under the second key
/// overwrites what was written under the first.
pub proof fn lemma_colliding_keys_overwrite<F: Fn(String) -> String>(
    f: F,
    store: StoreModel,
    key1: Seq<char>,
    key2: Seq<char>,
    first: Seq<u8>,
    second: Seq<u8>,
)
    requires
        transformed(f, key1) == transformed(f, key2),
    ensures
        store.write(transformed(f, key1), first).write(transformed(f, key2), second).read(
            transformed(f, key1),
        ) == Ok::<Seq<u8>, StoreError>(second),
{
}

/// A write to one path leaves the blobs at every other path as they were.
pub proof fn lemma_write_keeps_others(
    store: StoreModel,
    path: Seq<char>,
    other: Seq<char>,
    data: Seq<u8>,
)
    requires
        path != other,
    ensures
        store.write(path, data).read(other) == store.read(other),
{
}

/// A delete of a path that holds nothing fails with `NotFound` and changes nothing; after
/// a delete that succeeds the path holds nothing.
pub proof fn lemma_delete(store: StoreModel, path: Seq<char>)
    ensures
        !store.files.contains_key(path) ==> store.delete(path) == (
            store,
            Err::<(), StoreError>(StoreError::NotFound),
        ),
        store.files.contains_key(path) ==> store.delete(path).1 is Ok && store.delete(path).0.read(
            path,
        ) == Err::<Seq<u8>, StoreError>(StoreError::NotFound),
{
}

} // verus!
