use vstd::prelude::*;

verus! {

/// A point in time: whole seconds since the Unix epoch and the nanoseconds within that second.
#[derive(Clone, Copy, Debug, PartialEq, Eq, Structural)]
pub struct FsTimestamp {
    pub secs: i64,
    pub nanos: u32,
}

/// Whether `a` is strictly later than `b`.
pub open spec fn is_later(a: FsTimestamp, b: FsTimestamp) -> bool {
    a.secs > b.secs || (a.secs == b.secs && a.nanos > b.nanos)
}

impl FsTimestamp {
    pub fn new(secs: i64, nanos: u32) -> (r: Self)
        ensures
            r.secs == secs,
            r.nanos == nanos,
    {
        FsTimestamp { secs, nanos }
    }

    /// The Unix epoch, used when no earlier timestamp is known.
    pub fn epoch() -> (r: Self)
        ensures
            r.secs == 0,
            r.nanos == 0,
    {
        FsTimestamp { secs: 0, nanos: 0 }
    }

    pub fn is_after(&self, other: &FsTimestamp) -> (r: bool)
        ensures
            r == is_later(*self, *other),
    {
        self.secs > other.secs || (self.secs == other.secs && self.nanos > other.nanos)
    }
}

/// A snapshot of a path's metadata.
#[derive(Clone, Copy, Debug, PartialEq, Eq, Structural)]
pub struct FsMetadata {
    pub is_dir: bool,
    pub created: FsTimestamp,
    pub modified: FsTimestamp,
}

impl FsMetadata {
    pub fn new(is_dir: bool, created: FsTimestamp, modified: FsTimestamp) -> (r: Self)
        ensures
            r.is_dir == is_dir,
            r.created == created,
            r.modified == modified,
    {
        FsMetadata { is_dir, created, modified }
    }
}

/// Whether `path` begins with all the components of `base`.
pub uninterp spec fn path_starts_with(path: Seq<char>, base: Seq<char>) -> bool;

/// Relies on std::path::Path::starts_with, a prefix test over whole path components.
#[verifier::external_body]
fn starts_with(path: &str, base: &str) -> (r: bool)
    ensures
        r == path_starts_with(path@, base@),
{
    std::path::Path::new(path).starts_with(base)
}

/// The text of each path in `paths`.
pub open spec fn path_views(paths: Seq<String>) -> Seq<Seq<char>> {
    paths.map_values(|s: String| s@)
}

/// The stored keys of `m` that are strict descendants of `p`, when `p` is a stored directory.
pub open spec fn child_keys(m: Map<Seq<char>, FsMetadata>, p: Seq<char>) -> Set<Seq<char>> {
    if m.contains_key(p) && m[p].is_dir {
        m.dom().filter(|k: Seq<char>| path_starts_with(k, p) && k != p)
    } else {
        Set::empty()
    }
}

/// `ks` without the keys whose text is `p`, order kept.
pub open spec fn without(ks: Seq<String>, p: Seq<char>) -> Seq<String>
    decreases ks.len(),
{
    if ks.len() == 0 {
        ks
    } else if ks.last()@ == p {
        without(ks.drop_last(), p)
    } else {
        without(ks.drop_last(), p).push(ks.last())
    }
}

/// The keys of `ks` that are strict descendants of `p`, order kept.
pub open spec fn under(ks: Seq<String>, p: Seq<char>) -> Seq<String>
    decreases ks.len(),
{
    if ks.len() == 0 {
        ks
    } else if path_starts_with(ks.last()@, p) && ks.last()@ != p {
        under(ks.drop_last(), p).push(ks.last())
    } else {
        under(ks.drop_last(), p)
    }
}

proof fn lemma_without_absent(ks: Seq<String>, p: Seq<char>)
    requires
        forall|j: int| 0 <= j < ks.len() ==> ks[j]@ != p,
    ensures
        without(ks, p) == ks,
    decreases ks.len(),
{
    if ks.len() > 0 {
        lemma_without_absent(ks.drop_last(), p);
        assert(ks.drop_last().push(ks.last()) =~= ks);
    }
}

proof fn lemma_without_at(ks: Seq<String>, p: Seq<char>, i: int)
    requires
        0 <= i < ks.len(),
        ks[i]@ == p,
        forall|a: int, b: int| 0 <= a < ks.len() && 0 <= b < ks.len() && a != b ==> ks[a]@ != ks[b]@,
    ensures
        without(ks, p) == ks.remove(i),
    decreases ks.len(),
{
    let n = ks.len() - 1;
    if i == n {
        lemma_without_absent(ks.drop_last(), p);
        assert(ks.remove(i) =~= ks.drop_last());
    } else {
        assert(ks[n]@ != p);
        lemma_without_at(ks.drop_last(), p, i);
        assert(ks.drop_last().remove(i).push(ks.last()) =~= ks.remove(i));
    }
}

/// The last-known metadata of each observed path.
pub struct FsMetadataStore {
    keys: Vec<String>,
    values: Vec<FsMetadata>,
}

impl View for FsMetadataStore {
    type V = Map<Seq<char>, FsMetadata>;

    closed spec fn view(&self) -> Map<Seq<char>, FsMetadata> {
        Map::new(
            |k: Seq<char>| exists|i: int| 0 <= i < self.keys@.len() && self.keys@[i]@ == k,
            |k: Seq<char>| self.values@[choose|i: int| 0 <= i < self.keys@.len() && self.keys@[i]@ == k],
        )
    }
}

impl FsMetadataStore {
    /// Keys and values line up, and no path is stored twice.
    pub closed spec fn wf(&self) -> bool {
        &&& self.keys@.len() == self.values@.len()
        &&& forall|i: int, j: int|
            0 <= i < self.keys@.len() && 0 <= j < self.keys@.len() && i != j ==> self.keys@[i]@ != self.keys@[j]@
    }

    proof fn lemma_entry(&self, i: int)
        requires
            self.wf(),
            0 <= i < self.keys@.len(),
        ensures
            self@.contains_key(self.keys@[i]@),
            self@[self.keys@[i]@] == self.values@[i],
    {
        let k = self.keys@[i]@;
        assert(exists|j: int| 0 <= j < self.keys@.len() && self.keys@[j]@ == k);
        let j = choose|j: int| 0 <= j < self.keys@.len() && self.keys@[j]@ == k;
        assert(j == i);
    }

    /// The stored paths, in the order they were first recorded.
    pub closed spec fn key_list(&self) -> Seq<String> {
        self.keys@
    }

    /// The number of stored entries.
    pub open spec fn size(&self) -> nat {
        self.key_list().len()
    }

    pub fn new() -> (r: Self)
        ensures
            r.wf(),
            r@ == Map::<Seq<char>, FsMetadata>::empty(),
            r.key_list() == Seq::<String>::empty(),
    {
        let r = FsMetadataStore { keys: Vec::new(), values: Vec::new() };
        assert(r@ =~= Map::<Seq<char>, FsMetadata>::empty());
        r
    }

    /// The index at which `path` is stored, if it is.
    fn find(&self, path: &String) -> (r: Option<usize>)
        requires
            self.wf(),
        ensures
            r is Some ==> r->Some_0 < self.keys@.len() && self.keys@[r->Some_0 as int]@ == path@,
            r is None ==> forall|i: int| 0 <= i < self.keys@.len() ==> self.keys@[i]@ != path@,
            r is Some == self@.contains_key(path@),
    {
        let mut i: usize = 0;
        while i < self.keys.len()
            invariant
                self.wf(),
                i <= self.keys@.len(),
                forall|j: int| 0 <= j < i ==> self.keys@[j]@ != path@,
            decreases self.keys.len() - i,
        {
            if self.keys[i] == *path {
                proof {
                    self.lemma_entry(i as int);
                }
                return Some(i);
            }
            i = i + 1;
        }
        None
    }

    /// The stored metadata of `path`, if any.
    pub fn get(&self, path: &str) -> (r: Option<&FsMetadata>)
        requires
            self.wf(),
        ensures
            r is Some == self@.contains_key(path@),
            r is Some ==> *r->Some_0 == self@[path@],
    {
        let key = path.to_owned();
        match self.find(&key) {
            Some(i) => {
                proof {
                    self.lemma_entry(i as int);
                }
                Some(&self.values[i])
            },
            None => None,
        }
    }
    /// Records the metadata that a stat of `path` returned, or passes its error on.
    pub fn add(&mut self, path: &str, stat: Result<FsMetadata, String>) -> (r: Result<FsMetadata, String>)
        requires
            old(self).wf(),
        ensures
            final(self).wf(),
            final(self).size() <= old(self).size() + 1,
            r == stat,
            stat is Ok ==> final(self)@ == old(self)@.insert(path@, stat->Ok_0),
            stat is Err ==> final(self)@ == old(self)@,
    {
        let metadata = match stat {
            Ok(m) => m,
            Err(e) => return Err(e),
        };
        let key = path.to_owned();
        match self.find(&key) {
            Some(i) => {
                self.values.set(i, metadata);
                proof {
                    assert forall|k: Seq<char>| #[trigger] self@.contains_key(k) == old(self)@.insert(path@, metadata).contains_key(k) by {
                        if old(self)@.contains_key(k) {
                            let j = choose|j: int| 0 <= j < old(self).keys@.len() && old(self).keys@[j]@ == k;
                            assert(self.keys@[j]@ == k);
                        }
                        if k == path@ {
                            assert(self.keys@[i as int]@ == k);
                        }
                    }
                    assert forall|k: Seq<char>| #[trigger] self@.contains_key(k) implies self@[k] == old(self)@.insert(path@, metadata)[k] by {
                        let j = choose|j: int| 0 <= j < self.keys@.len() && self.keys@[j]@ == k;
                        self.lemma_entry(j);
                        old(self).lemma_entry(j);
                    }
                    assert(self@ =~= old(self)@.insert(path@, metadata));
                }
            },
            None => {
                let ghost n = self.keys@.len();
                self.keys.push(key);
                self.values.push(metadata);
                proof {
                    assert(self.keys@[n as int]@ == path@);
                    assert forall|k: Seq<char>| #[trigger] self@.contains_key(k) == old(self)@.insert(path@, metadata).contains_key(k) by {
                        if old(self)@.contains_key(k) {
                            let j = choose|j: int| 0 <= j < old(self).keys@.len() && old(self).keys@[j]@ == k;
                            assert(self.keys@[j]@ == k);
                        }
                        if self@.contains_key(k) {
                            let j = choose|j: int| 0 <= j < self.keys@.len() && self.keys@[j]@ == k;
                            if j < n {
                                assert(old(self).keys@[j]@ == k);
                            }
                        }
                    }
                    assert forall|k: Seq<char>| #[trigger] self@.contains_key(k) implies self@[k] == old(self)@.insert(path@, metadata)[k] by {
                        let j = choose|j: int| 0 <= j < self.keys@.len() && self.keys@[j]@ == k;
                        self.lemma_entry(j);
                        if j < n {
                            old(self).lemma_entry(j);
                        }
                    }
                    assert(self@ =~= old(self)@.insert(path@, metadata));
                }
            },
        }
        Ok(metadata)
    }

    /// Deletes the entry of `path` and hands back what was stored, if anything.
    pub fn remove(&mut self, path: &str) -> (r: Option<FsMetadata>)
        requires
            old(self).wf(),
        ensures
            final(self).wf(),
            r is Some ==> final(self).size() < old(self).size(),
            r is None ==> final(self).size() == old(self).size(),
            r == (if old(self)@.contains_key(path@) { Some(old(self)@[path@]) } else { None::<FsMetadata> }),
            final(self)@ == old(self)@.remove(path@),
            final(self).key_list() == without(old(self).key_list(), path@),
    {
        let key = path.to_owned();
        match self.find(&key) {
            Some(i) => {
                proof {
                    self.lemma_entry(i as int);
                }
                self.keys.remove(i);
                let m = self.values.remove(i);
                proof {
                    lemma_without_at(old(self).keys@, path@, i as int);
                    assert forall|a: int, b: int|
                        0 <= a < self.keys@.len() && 0 <= b < self.keys@.len() && a != b implies self.keys@[a]@ != self.keys@[b]@ by {
                        let a0 = if a < i { a } else { a + 1 };
                        let b0 = if b < i { b } else { b + 1 };
                        assert(self.keys@[a] == old(self).keys@[a0]);
                        assert(self.keys@[b] == old(self).keys@[b0]);
                    }
                    assert forall|k: Seq<char>| #[trigger] self@.contains_key(k) == old(self)@.remove(path@).contains_key(k) by {
                        if old(self)@.contains_key(k) && k != path@ {
                            let j = choose|j: int| 0 <= j < old(self).keys@.len() && old(self).keys@[j]@ == k;
                            assert(j != i);
                            let j1 = if j < i { j } else { j - 1 };
                            assert(self.keys@[j1]@ == k);
                        }
                        if self@.contains_key(k) {
                            let j = choose|j: int| 0 <= j < self.keys@.len() && self.keys@[j]@ == k;
                            let j0 = if j < i { j } else { j + 1 };
                            assert(old(self).keys@[j0]@ == k);
                        }
                    }
                    assert forall|k: Seq<char>| #[trigger] self@.contains_key(k) implies self@[k] == old(self)@.remove(path@)[k] by {
                        let j = choose|j: int| 0 <= j < self.keys@.len() && self.keys@[j]@ == k;
                        self.lemma_entry(j);
                        let j0 = if j < i { j } else { j + 1 };
                        assert(old(self).keys@[j0]@ == k);
                        old(self).lemma_entry(j0);
                    }
                    assert(self@ =~= old(self)@.remove(path@));
                }
                Some(m)
            },
            None => {
                proof {
                    lemma_without_absent(self.keys@, path@);
                }
                assert(self@ =~= old(self)@.remove(path@));
                None
            },
        }
    }

    /// The stored paths that are strict descendants of `path`, when `path` is a stored
    /// directory; empty otherwise.
    pub fn child_paths(&self, path: &str) -> (r: Vec<String>)
        requires
            self.wf(),
        ensures
            path_views(r@).to_set() == child_keys(self@, path@),
            path_views(r@).no_duplicates(),
            r@.len() > 0 ==> self@.contains_key(path@),
            r@ == (if self@.contains_key(path@) && self@[path@].is_dir { under(self.key_list(), path@) } else { Seq::<String>::empty() }),
    {
        let key = path.to_owned();
        let mut out: Vec<String> = Vec::new();
        let found = self.find(&key);
        if let Some(d) = found {
            proof {
                self.lemma_entry(d as int);
            }
            if self.values[d].is_dir {
                let mut i: usize = 0;
                while i < self.keys.len()
                    invariant
                        self.wf(),
                        i <= self.keys@.len(),
                        self@.contains_key(path@) && self@[path@].is_dir,
                        key@ == path@,
                        out@ == under(self.keys@.subrange(0, i as int), path@),
                        forall|k: Seq<char>| path_views(out@).contains(k) <==> (exists|j: int|
                            0 <= j < i && #[trigger] self.keys@[j]@ == k && path_starts_with(k, path@) && k != path@),
                        path_views(out@).no_duplicates(),
                    decreases self.keys.len() - i,
                {
                    let ghost before = out@;
                    proof {
                        assert(self.keys@.subrange(0, i + 1).drop_last() =~= self.keys@.subrange(0, i as int));
                    }
                    let take = starts_with(self.keys[i].as_str(), path) && !(self.keys[i] == key);
                    if take {
                        out.push(self.keys[i].clone());
                    }
                    proof {
                        let kv = self.keys@[i as int]@;
                        if take {
                            assert(path_views(out@) =~= path_views(before).push(kv));
                            if path_views(before).contains(kv) {
                                let j = choose|j: int| 0 <= j < i && #[trigger] self.keys@[j]@ == kv
                                    && path_starts_with(kv, path@) && kv != path@;
                                assert(false);
                            }
                        } else {
                            assert(path_views(out@) =~= path_views(before));
                        }
                        assert forall|k: Seq<char>| path_views(out@).contains(k) <==> (exists|j: int|
                            0 <= j < i + 1 && #[trigger] self.keys@[j]@ == k && path_starts_with(k, path@) && k != path@) by {
                            if take && k == kv {
                                assert(path_views(out@)[path_views(before).len() as int] == k);
                            }
                            if path_views(before).contains(k) {
                                let x = choose|x: int| 0 <= x < path_views(before).len() && path_views(before)[x] == k;
                                assert(path_views(out@)[x] == k);
                            }
                            if path_views(out@).contains(k) {
                                let x = choose|x: int| 0 <= x < path_views(out@).len() && path_views(out@)[x] == k;
                                if x < path_views(before).len() {
                                    assert(path_views(before)[x] == k);
                                }
                            }
                            if exists|j: int| 0 <= j < i + 1 && #[trigger] self.keys@[j]@ == k && path_starts_with(k, path@) && k != path@ {
                                let j = choose|j: int| 0 <= j < i + 1 && #[trigger] self.keys@[j]@ == k && path_starts_with(k, path@) && k != path@;
                                if j == i {
                                    assert(take);
                                } else {
                                    assert(path_views(before).contains(k));
                                }
                            }
                        }
                    }
                    i = i + 1;
                }
                proof {
                    assert(self.keys@.subrange(0, i as int) =~= self.keys@);
                    assert forall|k: Seq<char>| path_views(out@).to_set().contains(k) == child_keys(self@, path@).contains(k) by {
                        if child_keys(self@, path@).contains(k) {
                            let j = choose|j: int| 0 <= j < self.keys@.len() && self.keys@[j]@ == k;
                        }
                    }
                    assert(path_views(out@).to_set() =~= child_keys(self@, path@));
                }
                return out;
            }
        }
        proof {
            assert(path_views(out@).to_set() =~= child_keys(self@, path@));
        }
        out
    }
}

/// Right after metadata is recorded for a path, looking the path up gives that
/// metadata; right after the path is removed, looking it up gives nothing.
pub proof fn lemma_add_then_get(store: Map<Seq<char>, FsMetadata>, path: Seq<char>, metadata: FsMetadata)
    ensures
        store.insert(path, metadata).contains_key(path),
        store.insert(path, metadata)[path] == metadata,
        !store.remove(path).contains_key(path),
{
}

} // verus!
