use vstd::prelude::*;

use crate::filter::FsMessageFilter;
use crate::metadata::{is_later, path_starts_with, under, without, FsMetadata, FsMetadataStore, FsTimestamp};

verus! {

/// What happened to a path.
#[derive(Clone, Copy, Debug, PartialEq, Eq, Structural)]
pub enum FsMessageEventKind {
    Created,
    Modified,
    Removed,
}

/// A semantic change to one path, with the metadata known for it.
#[derive(Debug)]
pub struct FsMessageEvent {
    pub kind: FsMessageEventKind,
    pub path: String,
    pub metadata: Option<FsMetadata>,
}

impl FsMessageEvent {
    pub fn new(kind: FsMessageEventKind, path: String, metadata: Option<FsMetadata>) -> (r: Self)
        ensures
            r.kind == kind,
            r.path == path,
            r.metadata == metadata,
    {
        FsMessageEvent { kind, path, metadata }
    }
}

/// A non-fatal failure, reported in the stream.
#[derive(Debug)]
pub struct FsMessageError {
    pub message: String,
}

impl FsMessageError {
    pub fn new(message: String) -> (r: Self)
        ensures
            r.message == message,
    {
        FsMessageError { message }
    }
}

/// One item of the output stream.
#[derive(Debug)]
pub enum FsMessage {
    Event(FsMessageEvent),
    Error(FsMessageError),
}

impl From<FsMessageEvent> for FsMessage {
    fn from(value: FsMessageEvent) -> (r: Self)
        ensures
            r == FsMessage::Event(value),
    {
        FsMessage::Event(value)
    }
}

impl vstd::std_specs::convert::FromSpecImpl<FsMessageEvent> for FsMessage {
    open spec fn obeys_from_spec() -> bool {
        true
    }

    open spec fn from_spec(v: FsMessageEvent) -> FsMessage {
        FsMessage::Event(v)
    }
}

impl From<FsMessageError> for FsMessage {
    fn from(value: FsMessageError) -> (r: Self)
        ensures
            r == FsMessage::Error(value),
    {
        FsMessage::Error(value)
    }
}

impl vstd::std_specs::convert::FromSpecImpl<FsMessageError> for FsMessage {
    open spec fn obeys_from_spec() -> bool {
        true
    }

    open spec fn from_spec(v: FsMessageError) -> FsMessage {
        FsMessage::Error(v)
    }
}

/// The kind of a raw change notification.
#[derive(Clone, Copy, Debug, PartialEq, Eq, Structural)]
pub enum FsNotificationKind {
    /// A path was created (any subtype).
    Create,
    /// A path's content changed.
    Modify,
    /// A path was renamed away (the "from" side).
    RenameFrom,
    /// A path was renamed into place (the "to" side).
    RenameTo,
    /// A path was removed (any subtype).
    Remove,
    /// Anything else; ignored.
    Other,
}

/// A raw change notification: a coarse kind and the paths it concerns.
#[derive(Debug)]
pub struct FsNotification {
    pub kind: FsNotificationKind,
    pub paths: Vec<String>,
}

/// What the baseline scan does with one directory entry.
#[derive(Debug)]
pub struct ScanStep {
    /// The `Created` event to report, if the entry passed the filter.
    pub event: Option<FsMessageEvent>,
    /// Whether the scan goes on into the entry.
    pub descend: bool,
}

pub open spec fn event_of(kind: FsMessageEventKind, path: String, metadata: Option<FsMetadata>) -> FsMessageEvent {
    FsMessageEvent { kind, path, metadata }
}

pub open spec fn event_message(kind: FsMessageEventKind, path: String, metadata: Option<FsMetadata>) -> FsMessage {
    FsMessage::Event(event_of(kind, path, metadata))
}

pub open spec fn error_message(message: String) -> FsMessage {
    FsMessage::Error(FsMessageError { message })
}

/// The `modified` time previously recorded for `p`, or the epoch.
pub open spec fn previous_modified(s: Map<Seq<char>, FsMetadata>, p: Seq<char>) -> FsTimestamp {
    if s.contains_key(p) {
        s[p].modified
    } else {
        FsTimestamp { secs: 0, nanos: 0 }
    }
}

/// Store and messages after handling created paths: each path that passes the
/// filter is recorded with its fresh metadata and reported `Created`, or its stat
/// error is reported.
pub open spec fn create_outcome(
    f: FsMessageFilter,
    s: Map<Seq<char>, FsMetadata>,
    paths: Seq<String>,
    stats: Seq<Result<FsMetadata, String>>,
) -> (Map<Seq<char>, FsMetadata>, Seq<FsMessage>)
    decreases paths.len(),
{
    if paths.len() == 0 {
        (s, Seq::empty())
    } else {
        let n = paths.len() - 1;
        let (s0, m0) = create_outcome(f, s, paths.drop_last(), stats);
        let p = paths[n];
        if !f.accepts(p@) {
            (s0, m0)
        } else {
            match stats[n] {
                Ok(m) => (s0.insert(p@, m), m0.push(event_message(FsMessageEventKind::Created, p, Some(m)))),
                Err(e) => (s0, m0.push(error_message(e))),
            }
        }
    }
}

/// Store and messages after handling modified paths: each path that passes the
/// filter is recorded with its fresh metadata, and reported `Modified` only when
/// its new `modified` time is strictly later than the one recorded before; a stat
/// error is reported instead.
pub open spec fn modify_outcome(
    f: FsMessageFilter,
    s: Map<Seq<char>, FsMetadata>,
    paths: Seq<String>,
    stats: Seq<Result<FsMetadata, String>>,
) -> (Map<Seq<char>, FsMetadata>, Seq<FsMessage>)
    decreases paths.len(),
{
    if paths.len() == 0 {
        (s, Seq::empty())
    } else {
        let n = paths.len() - 1;
        let (s0, m0) = modify_outcome(f, s, paths.drop_last(), stats);
        let p = paths[n];
        if !f.accepts(p@) {
            (s0, m0)
        } else {
            match stats[n] {
                Ok(m) => (
                    s0.insert(p@, m),
                    if is_later(m.modified, previous_modified(s0, p@)) {
                        m0.push(event_message(FsMessageEventKind::Modified, p, Some(m)))
                    } else {
                        m0
                    },
                ),
                Err(e) => (s0, m0.push(error_message(e))),
            }
        }
    }
}

/// The `Removed` message for `p`, with the metadata `m` holds for it, if any.
pub open spec fn removed_message(p: String, m: Map<Seq<char>, FsMetadata>) -> FsMessage {
    event_message(FsMessageEventKind::Removed, p, if m.contains_key(p@) { Some(m[p@]) } else { None::<FsMetadata> })
}

/// The stored strict descendants of `p` when `p` is a stored directory, in key order.
pub open spec fn stored_children(ks: Seq<String>, m: Map<Seq<char>, FsMetadata>, p: Seq<char>) -> Seq<String> {
    if m.contains_key(p) && m[p].is_dir {
        under(ks, p)
    } else {
        Seq::empty()
    }
}

/// Key order, store and messages after removing `p` from the store with key order
/// `ks` and contents `m`: first `p` leaves the store, then each of its stored
/// descendants that is still stored is removed the same way, in key order, and last
/// `p` is reported `Removed` with the metadata it had.
pub open spec fn remove_tree(ks: Seq<String>, m: Map<Seq<char>, FsMetadata>, p: String) -> (Seq<String>, Map<Seq<char>, FsMetadata>, Seq<FsMessage>)
    decreases ks.len(), 0nat,
{
    let ks1 = without(ks, p@);
    if ks1.len() < ks.len() {
        let (ks2, m2, msgs) = remove_children(ks1, m.remove(p@), stored_children(ks, m, p@));
        (ks2, m2, msgs.push(removed_message(p, m)))
    } else {
        (ks1, m.remove(p@), seq![removed_message(p, m)])
    }
}

/// Key order, store and messages after removing, in turn, each path of `cs` that is
/// still stored when its turn comes (see `remove_tree`).
pub open spec fn remove_children(ks: Seq<String>, m: Map<Seq<char>, FsMetadata>, cs: Seq<String>) -> (Seq<String>, Map<Seq<char>, FsMetadata>, Seq<FsMessage>)
    decreases ks.len(), cs.len(),
{
    if cs.len() == 0 {
        (ks, m, Seq::empty())
    } else {
        let (ks1, m1, msgs1) = remove_children(ks, m, cs.drop_last());
        let c = cs.last();
        if m1.contains_key(c@) && ks1.len() <= ks.len() {
            let (ks2, m2, msgs2) = remove_tree(ks1, m1, c);
            (ks2, m2, msgs1 + msgs2)
        } else {
            (ks1, m1, msgs1)
        }
    }
}

/// Key order, store and messages after a removal notification: each path that
/// passes the filter is removed with its tracked descendants (see `remove_tree`).
pub open spec fn remove_outcome(f: FsMessageFilter, ks: Seq<String>, m: Map<Seq<char>, FsMetadata>, paths: Seq<String>) -> (Seq<String>, Map<Seq<char>, FsMetadata>, Seq<FsMessage>)
    decreases paths.len(),
{
    if paths.len() == 0 {
        (ks, m, Seq::empty())
    } else {
        let (ks1, m1, msgs1) = remove_outcome(f, ks, m, paths.drop_last());
        let p = paths.last();
        if f.accepts(p@) {
            let (ks2, m2, msgs2) = remove_tree(ks1, m1, p);
            (ks2, m2, msgs1 + msgs2)
        } else {
            (ks1, m1, msgs1)
        }
    }
}

/// Turns raw notifications into messages, keeping the metadata store up to date.
pub struct FsEventHandler {
    filter: FsMessageFilter,
    store: FsMetadataStore,
}

impl FsEventHandler {
    pub closed spec fn filter(&self) -> FsMessageFilter {
        self.filter
    }

    pub closed spec fn store_view(&self) -> Map<Seq<char>, FsMetadata> {
        self.store@
    }

    /// The stored paths, in the order they were first recorded.
    pub closed spec fn store_keys(&self) -> Seq<String> {
        self.store.key_list()
    }

    pub closed spec fn wf(&self) -> bool {
        self.store.wf()
    }

    pub fn new(filter: FsMessageFilter) -> (r: Self)
        ensures
            r.wf(),
            r.filter() == filter,
            r.store_view() == Map::<Seq<char>, FsMetadata>::empty(),
            r.store_keys() == Seq::<String>::empty(),
    {
        FsEventHandler { filter, store: FsMetadataStore::new() }
    }

    /// The metadata store.
    pub fn store(&self) -> (r: &FsMetadataStore)
        requires
            self.wf(),
        ensures
            r.wf(),
            r@ == self.store_view(),
            r.key_list() == self.store_keys(),
    {
        &self.store
    }

    /// One entry of the baseline scan, with the result of statting it: an entry that
    /// passes the filter is recorded and reported `Created`, and is descended into
    /// when it is a directory and the scan is recursive; a stat error aborts the scan.
    pub fn scan_entry(&mut self, path: String, stat: Result<FsMetadata, String>, recursive: bool) -> (r: Result<ScanStep, FsMessageError>)
        requires
            old(self).wf(),
        ensures
            final(self).wf(),
            final(self).filter() == old(self).filter(),
            !old(self).filter().accepts(path@) ==> (final(self).store_view() == old(self).store_view()
                && r is Ok && r->Ok_0.event is None && !r->Ok_0.descend),
            old(self).filter().accepts(path@) && stat is Ok ==> (final(self).store_view()
                == old(self).store_view().insert(path@, stat->Ok_0) && r is Ok
                && r->Ok_0.descend == (recursive && stat->Ok_0.is_dir)
                && r->Ok_0.event == Some(event_of(FsMessageEventKind::Created, path, Some(stat->Ok_0)))),
            old(self).filter().accepts(path@) && stat is Err ==> (final(self).store_view() == old(self).store_view()
                && r is Err && r->Err_0.message == stat->Err_0),
    {
        if !self.filter.is_match(path.as_str()) {
            return Ok(ScanStep { event: None, descend: false });
        }
        match self.store.add(path.as_str(), stat) {
            Ok(m) => Ok(ScanStep {
                event: Some(FsMessageEvent::new(FsMessageEventKind::Created, path, Some(m))),
                descend: recursive && m.is_dir,
            }),
            Err(e) => Err(FsMessageError::new(e)),
        }
    }

    /// Records or reports each created path that passes the filter.
    fn create_entry(&mut self, paths: &Vec<String>, stats: &Vec<Result<FsMetadata, String>>, out: &mut Vec<FsMessage>)
        requires
            old(self).wf(),
            stats@.len() == paths@.len(),
        ensures
            final(self).wf(),
            final(self).filter() == old(self).filter(),
            final(self).store_view() == create_outcome(old(self).filter(), old(self).store_view(), paths@, stats@).0,
            final(out)@ == old(out)@ + create_outcome(old(self).filter(), old(self).store_view(), paths@, stats@).1,
    {
        let ghost f = self.filter;
        let ghost s0 = self.store@;
        let ghost out0 = out@;
        let mut i: usize = 0;
        while i < paths.len()
            invariant
                self.wf(),
                self.filter == f,
                i <= paths@.len(),
                stats@.len() == paths@.len(),
                self.store@ == create_outcome(f, s0, paths@.subrange(0, i as int), stats@).0,
                out@ == out0 + create_outcome(f, s0, paths@.subrange(0, i as int), stats@).1,
            decreases paths.len() - i,
        {
            proof {
                assert(paths@.subrange(0, i + 1).drop_last() =~= paths@.subrange(0, i as int));
            }
            let path = &paths[i];
            if self.filter.is_match(path.as_str()) {
                let stat = match &stats[i] {
                    Ok(m) => Ok(*m),
                    Err(e) => Err(e.clone()),
                };
                match self.store.add(path.as_str(), stat) {
                    Ok(m) => {
                        out.push(FsMessage::Event(FsMessageEvent::new(FsMessageEventKind::Created, path.clone(), Some(m))));
                    },
                    Err(e) => {
                        out.push(FsMessage::Error(FsMessageError::new(e)));
                    },
                }
            }
            proof {
                assert(out@ =~= out0 + create_outcome(f, s0, paths@.subrange(0, i + 1), stats@).1);
            }
            i = i + 1;
        }
        proof {
            assert(paths@.subrange(0, i as int) =~= paths@);
        }
    }

    /// Re-records each modified path that passes the filter, reporting it only when
    /// its `modified` time moved forward.
    fn modify_entry(&mut self, paths: &Vec<String>, stats: &Vec<Result<FsMetadata, String>>, out: &mut Vec<FsMessage>)
        requires
            old(self).wf(),
            stats@.len() == paths@.len(),
        ensures
            final(self).wf(),
            final(self).filter() == old(self).filter(),
            final(self).store_view() == modify_outcome(old(self).filter(), old(self).store_view(), paths@, stats@).0,
            final(out)@ == old(out)@ + modify_outcome(old(self).filter(), old(self).store_view(), paths@, stats@).1,
    {
        let ghost f = self.filter;
        let ghost s0 = self.store@;
        let ghost out0 = out@;
        let mut i: usize = 0;
        while i < paths.len()
            invariant
                self.wf(),
                self.filter == f,
                i <= paths@.len(),
                stats@.len() == paths@.len(),
                self.store@ == modify_outcome(f, s0, paths@.subrange(0, i as int), stats@).0,
                out@ == out0 + modify_outcome(f, s0, paths@.subrange(0, i as int), stats@).1,
            decreases paths.len() - i,
        {
            proof {
                assert(paths@.subrange(0, i + 1).drop_last() =~= paths@.subrange(0, i as int));
            }
            let path = &paths[i];
            if self.filter.is_match(path.as_str()) {
                let old_ts = match self.store.get(path.as_str()) {
                    Some(m) => m.modified,
                    None => FsTimestamp::epoch(),
                };
                let stat = match &stats[i] {
                    Ok(m) => Ok(*m),
                    Err(e) => Err(e.clone()),
                };
                match self.store.add(path.as_str(), stat) {
                    Ok(m) => {
                        if m.modified.is_after(&old_ts) {
                            out.push(FsMessage::Event(FsMessageEvent::new(FsMessageEventKind::Modified, path.clone(), Some(m))));
                        }
                    },
                    Err(e) => {
                        out.push(FsMessage::Error(FsMessageError::new(e)));
                    },
                }
            }
            proof {
                assert(out@ =~= out0 + modify_outcome(f, s0, paths@.subrange(0, i + 1), stats@).1);
            }
            i = i + 1;
        }
        proof {
            assert(paths@.subrange(0, i as int) =~= paths@);
        }
    }

    /// Removes `path` and, first, every currently tracked descendant of it; each is
    /// reported `Removed` with its last metadata, descendants before their ancestor.
    fn remove_path(&mut self, path: &String, out: &mut Vec<FsMessage>)
        requires
            old(self).wf(),
        ensures
            final(self).wf(),
            final(self).filter() == old(self).filter(),
            final(self).store.size() <= old(self).store.size(),
            final(self).store.key_list() == remove_tree(old(self).store.key_list(), old(self).store_view(), *path).0,
            final(self).store_view() == remove_tree(old(self).store.key_list(), old(self).store_view(), *path).1,
            final(out)@ == old(out)@ + remove_tree(old(self).store.key_list(), old(self).store_view(), *path).2,
        decreases old(self).store.size(),
    {
        let ghost ks0 = self.store.key_list();
        let ghost m0 = self.store@;
        let ghost out0 = out@;
        let children = self.store.child_paths(path.as_str());
        let removed = self.store.remove(path.as_str());
        let ghost ks1 = self.store.key_list();
        let ghost m1 = self.store@;
        let mut i: usize = 0;
        while i < children.len()
            invariant
                self.wf(),
                self.filter == old(self).filter,
                ks0 == old(self).store.key_list(),
                m0 == old(self).store@,
                out0 == old(out)@,
                ks1 == without(ks0, path@),
                m1 == m0.remove(path@),
                children@ == stored_children(ks0, m0, path@),
                children@.len() > 0 ==> ks1.len() < ks0.len(),
                i <= children@.len(),
                self.store.size() <= ks1.len(),
                self.store.key_list() == remove_children(ks1, m1, children@.subrange(0, i as int)).0,
                self.store@ == remove_children(ks1, m1, children@.subrange(0, i as int)).1,
                out@ == out0 + remove_children(ks1, m1, children@.subrange(0, i as int)).2,
            decreases children.len() - i,
        {
            proof {
                assert(children@.subrange(0, i + 1).drop_last() =~= children@.subrange(0, i as int));
            }
            let child = &children[i];
            if self.store.get(child.as_str()).is_some() {
                self.remove_path(child, out);
            }
            proof {
                assert(out@ =~= out0 + remove_children(ks1, m1, children@.subrange(0, i + 1)).2);
            }
            i = i + 1;
        }
        proof {
            assert(children@.subrange(0, i as int) =~= children@);
        }
        out.push(FsMessage::Event(FsMessageEvent::new(FsMessageEventKind::Removed, path.clone(), removed)));
        proof {
            let rc = remove_children(ks1, m1, children@);
            if ks1.len() < ks0.len() {
                assert(out@ =~= out0 + rc.2.push(removed_message(*path, m0)));
            } else {
                assert(out@ =~= out0 + seq![removed_message(*path, m0)]);
            }
        }
    }

    /// Removes each path that passes the filter, cascading to its tracked descendants.
    fn remove_entry(&mut self, paths: &Vec<String>, out: &mut Vec<FsMessage>)
        requires
            old(self).wf(),
        ensures
            final(self).wf(),
            final(self).filter() == old(self).filter(),
            final(self).store.key_list() == remove_outcome(old(self).filter(), old(self).store.key_list(), old(self).store_view(), paths@).0,
            final(self).store_view() == remove_outcome(old(self).filter(), old(self).store.key_list(), old(self).store_view(), paths@).1,
            final(out)@ == old(out)@ + remove_outcome(old(self).filter(), old(self).store.key_list(), old(self).store_view(), paths@).2,
    {
        let ghost f = self.filter;
        let ghost ks0 = self.store.key_list();
        let ghost m0 = self.store@;
        let ghost out0 = out@;
        let mut i: usize = 0;
        while i < paths.len()
            invariant
                self.wf(),
                self.filter == f,
                i <= paths@.len(),
                self.store.key_list() == remove_outcome(f, ks0, m0, paths@.subrange(0, i as int)).0,
                self.store@ == remove_outcome(f, ks0, m0, paths@.subrange(0, i as int)).1,
                out@ == out0 + remove_outcome(f, ks0, m0, paths@.subrange(0, i as int)).2,
            decreases paths.len() - i,
        {
            proof {
                assert(paths@.subrange(0, i + 1).drop_last() =~= paths@.subrange(0, i as int));
            }
            let path = &paths[i];
            if self.filter.is_match(path.as_str()) {
                self.remove_path(path, out);
            }
            proof {
                assert(out@ =~= out0 + remove_outcome(f, ks0, m0, paths@.subrange(0, i + 1)).2);
            }
            i = i + 1;
        }
        proof {
            assert(paths@.subrange(0, i as int) =~= paths@);
        }
    }

    /// Routes one raw notification, together with the result of statting each of its
    /// paths (in order), and returns the messages it gives.
    pub fn handle(&mut self, result: Result<FsNotification, String>, stats: &Vec<Result<FsMetadata, String>>) -> (r: Vec<FsMessage>)
        requires
            old(self).wf(),
            result is Ok ==> stats@.len() == result->Ok_0.paths@.len(),
        ensures
            final(self).wf(),
            final(self).filter() == old(self).filter(),
            result is Err ==> (final(self).store_view() == old(self).store_view()
                && r@ == seq![error_message(result->Err_0)]),
            result is Ok ==> ({
                let n = result->Ok_0;
                let f = old(self).filter();
                let s = old(self).store_view();
                &&& (n.kind == FsNotificationKind::Create || n.kind == FsNotificationKind::RenameTo) ==> (
                    final(self).store_view() == create_outcome(f, s, n.paths@, stats@).0
                    && r@ == create_outcome(f, s, n.paths@, stats@).1)
                &&& n.kind == FsNotificationKind::Modify ==> (
                    final(self).store_view() == modify_outcome(f, s, n.paths@, stats@).0
                    && r@ == modify_outcome(f, s, n.paths@, stats@).1)
                &&& (n.kind == FsNotificationKind::Remove || n.kind == FsNotificationKind::RenameFrom) ==> (
                    final(self).store_keys() == remove_outcome(f, old(self).store_keys(), s, n.paths@).0
                    && final(self).store_view() == remove_outcome(f, old(self).store_keys(), s, n.paths@).1
                    && r@ == remove_outcome(f, old(self).store_keys(), s, n.paths@).2)
                &&& n.kind == FsNotificationKind::Other ==> (
                    final(self).store_view() == s && r@.len() == 0)
            }),
    {
        let mut out: Vec<FsMessage> = Vec::new();
        match result {
            Ok(n) => match n.kind {
                FsNotificationKind::Create | FsNotificationKind::RenameTo => {
                    self.create_entry(&n.paths, stats, &mut out);
                    assert(out@ =~= create_outcome(old(self).filter(), old(self).store_view(), n.paths@, stats@).1);
                },
                FsNotificationKind::Modify => {
                    self.modify_entry(&n.paths, stats, &mut out);
                    assert(out@ =~= modify_outcome(old(self).filter(), old(self).store_view(), n.paths@, stats@).1);
                },
                FsNotificationKind::Remove | FsNotificationKind::RenameFrom => {
                    self.remove_entry(&n.paths, &mut out);
                    assert(out@ =~= remove_outcome(old(self).filter(), old(self).store_keys(), old(self).store_view(), n.paths@).2);
                },
                FsNotificationKind::Other => {},
            },
            Err(message) => {
                out.push(FsMessage::Error(FsMessageError::new(message)));
                assert(out@ =~= seq![error_message(result->Err_0)]);
            },
        }
        out
    }
}

/// A modify notification for a tracked path whose re-stat shows the same `modified`
/// time reports nothing; one whose re-stat shows a strictly later time reports
/// exactly one `Modified` event, carrying the new metadata.
pub proof fn lemma_modify_reports_only_later(
    f: FsMessageFilter,
    s: Map<Seq<char>, FsMetadata>,
    path: String,
    m: FsMetadata,
)
    requires
        f.accepts(path@),
        s.contains_key(path@),
    ensures
        m.modified == s[path@].modified ==> modify_outcome(f, s, seq![path], seq![Ok(m)]).1.len() == 0,
        is_later(m.modified, s[path@].modified) ==> modify_outcome(f, s, seq![path], seq![Ok(m)]).1
            == seq![event_message(FsMessageEventKind::Modified, path, Some(m))],
        modify_outcome(f, s, seq![path], seq![Ok(m)]).0 == s.insert(path@, m),
{
    let paths = seq![path];
    assert(paths.drop_last() =~= Seq::<String>::empty());
    assert(modify_outcome(f, s, paths.drop_last(), seq![Ok(m)]) == (s, Seq::<FsMessage>::empty()));
    assert(seq![event_message(FsMessageEventKind::Modified, path, Some(m))]
        =~= Seq::<FsMessage>::empty().push(event_message(FsMessageEventKind::Modified, path, Some(m))));
}

/// Removing a stored directory `d` whose stored descendants are the directory `a`
/// and, below it, `b`, recorded in that order after `d`, reports `b`, then `a`, then
/// `d`, each with its last metadata, once each, and leaves none of them stored.
pub proof fn lemma_remove_nested(
    f: FsMessageFilter,
    d: String,
    a: String,
    b: String,
    md: FsMetadata,
    ma: FsMetadata,
    mb: FsMetadata,
)
    requires
        f.accepts(d@),
        d@ != a@,
        d@ != b@,
        a@ != b@,
        md.is_dir,
        ma.is_dir,
        path_starts_with(a@, d@),
        path_starts_with(b@, d@),
        path_starts_with(b@, a@),
    ensures
        ({
            let m = Map::<Seq<char>, FsMetadata>::empty().insert(d@, md).insert(a@, ma).insert(b@, mb);
            let r = remove_outcome(f, seq![d, a, b], m, seq![d]);
            &&& r.0 == Seq::<String>::empty()
            &&& r.1 == Map::<Seq<char>, FsMetadata>::empty()
            &&& r.2 == seq![
                event_message(FsMessageEventKind::Removed, b, Some(mb)),
                event_message(FsMessageEventKind::Removed, a, Some(ma)),
                event_message(FsMessageEventKind::Removed, d, Some(md)),
            ]
        }),
{
    let m = Map::<Seq<char>, FsMetadata>::empty().insert(d@, md).insert(a@, ma).insert(b@, mb);
    let ks = seq![d, a, b];
    let e = Seq::<String>::empty();
    // key lists along the way
    assert(ks.drop_last() =~= seq![d, a]);
    assert(seq![d, a].drop_last() =~= seq![d]);
    assert(seq![d].drop_last() =~= e);
    assert(seq![a, b].drop_last() =~= seq![a]);
    assert(seq![a].drop_last() =~= e);
    assert(seq![b].drop_last() =~= e);
    assert(without(e, d@) =~= e);
    assert(seq![d].last() == d);
    assert(without(seq![d], d@) =~= e);
    assert(without(seq![d, a], d@) =~= seq![a]);
    assert(without(ks, d@) =~= seq![a, b]);
    assert(under(e, d@) =~= e);
    assert(under(seq![d], d@) =~= e);
    assert(under(seq![d, a], d@) =~= seq![a]);
    assert(under(ks, d@) =~= seq![a, b]);
    assert(without(e, a@) =~= e);
    assert(seq![a].last() == a);
    assert(without(seq![a], a@) =~= e);
    assert(without(seq![a, b], a@) =~= seq![b]);
    assert(under(e, a@) =~= e);
    assert(under(seq![a], a@) =~= e);
    assert(under(seq![a, b], a@) =~= seq![b]);
    assert(seq![b].last() == b);
    assert(without(e, b@) =~= e);
    assert(under(e, b@) =~= e);
    assert(without(seq![b], b@) =~= e);
    assert(under(seq![b], b@) =~= e);
    // maps along the way
    let m1 = m.remove(d@);
    let m2 = m1.remove(a@);
    let m3 = m2.remove(b@);
    assert(m3 =~= Map::<Seq<char>, FsMetadata>::empty());
    assert(m.contains_key(d@) && m[d@] == md);
    assert(m1.contains_key(a@) && m1[a@] == ma);
    assert(m2.contains_key(b@) && m2[b@] == mb);
    assert(!m3.contains_key(b@));
    // the innermost removal, of b
    assert(stored_children(seq![b], m2, b@) =~= e);
    assert(remove_children(e, m3, e) == (e, m3, Seq::<FsMessage>::empty()));
    let rb = remove_tree(seq![b], m2, b);
    assert(rb.2 =~= seq![removed_message(b, m2)]);
    assert(rb.0 == e && rb.1 == m3);
    // the removal of a, which takes b with it
    assert(stored_children(seq![a, b], m1, a@) =~= seq![b]);
    assert(seq![b].drop_last() =~= e);
    assert(remove_children(seq![b], m2, e) == (seq![b], m2, Seq::<FsMessage>::empty()));
    let rcb = remove_children(seq![b], m2, seq![b]);
    assert(rcb.2 =~= seq![removed_message(b, m2)]);
    let ra = remove_tree(seq![a, b], m1, a);
    assert(ra.2 =~= seq![removed_message(b, m2), removed_message(a, m1)]);
    // the removal of d: a, then b (already gone)
    assert(stored_children(ks, m, d@) =~= seq![a, b]);
    assert(remove_children(seq![a, b], m1, e) == (seq![a, b], m1, Seq::<FsMessage>::empty()));
    let rca = remove_children(seq![a, b], m1, seq![a]);
    assert(rca.2 =~= ra.2);
    let rcab = remove_children(seq![a, b], m1, seq![a, b]);
    assert(rcab == rca);
    let rd = remove_tree(ks, m, d);
    assert(rd.2 =~= seq![removed_message(b, m2), removed_message(a, m1), removed_message(d, m)]);
    let e2 = Seq::<String>::empty();
    assert(seq![d].drop_last() =~= e2);
    assert(remove_outcome(f, ks, m, e2) == (ks, m, Seq::<FsMessage>::empty()));
    let r = remove_outcome(f, ks, m, seq![d]);
    assert(r.2 =~= rd.2);
}

/// Removing one accepted path with no stored descendant to cascade to (a path never
/// stored, a file, or a directory with nothing stored below it) gives exactly one
/// `Removed` message, carrying its last metadata if it had any, and takes only that
/// path out of the store.
pub proof fn lemma_remove_leaf(f: FsMessageFilter, ks: Seq<String>, m: Map<Seq<char>, FsMetadata>, p: String)
    requires
        f.accepts(p@),
        stored_children(ks, m, p@).len() == 0,
    ensures
        remove_outcome(f, ks, m, seq![p]) == (without(ks, p@), m.remove(p@), seq![removed_message(p, m)]),
        !m.contains_key(p@) ==> m.remove(p@) == m,
{
    let e = Seq::<String>::empty();
    assert(seq![p].drop_last() =~= e);
    assert(seq![p].last() == p);
    assert(remove_outcome(f, ks, m, e) == (ks, m, Seq::<FsMessage>::empty()));
    assert(stored_children(ks, m, p@) =~= e);
    let ks1 = without(ks, p@);
    assert(remove_children(ks1, m.remove(p@), e) == (ks1, m.remove(p@), Seq::<FsMessage>::empty()));
    assert(Seq::<FsMessage>::empty().push(removed_message(p, m)) =~= seq![removed_message(p, m)]);
    let t = remove_tree(ks, m, p);
    assert(t == (ks1, m.remove(p@), seq![removed_message(p, m)]));
    assert(Seq::<FsMessage>::empty() + t.2 =~= t.2);
    if !m.contains_key(p@) {
        assert(m.remove(p@) =~= m);
    }
}

} // verus!
