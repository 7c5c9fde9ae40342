//! The dispatcher's decisions: which notifications become records, and the
//! record each one becomes.
use vstd::prelude::*;
use crate::config::{
    Config, MonitoredPath, NOT_FOUND, find_index, first_match, ignored_by, ignored_in,
    label_text, lemma_resolve_is_lowest_match, match_target, resolved_index,
};
use crate::entry::{
    AuditRecord, EventKind, FileMeta, Operation, assemble, classify, classify_spec, get_uuid,
    record_built, record_id, uuid_shaped,
};
use crate::utils::{SEPARATOR, lemma_split_nonempty, path_tokens, split_text};

verus! {

/// What the filesystem holds at a notification's path when it is handled.
#[derive(Clone, Copy, Debug, PartialEq, Eq, Structural)]
pub enum FileType {
    Regular,
    Directory,
    Fifo,
    BlockDevice,
    CharDevice,
    Socket,
    /// Nothing exists at the path any more.
    Absent,
}

/// A raw filesystem notification, with what was found at its first path.
#[derive(Clone, Debug, PartialEq, Eq)]
pub struct Notification {
    pub kind: EventKind,
    pub paths: Vec<String>,
    pub file_type: FileType,
}

/// The dispatcher's decision on one notification.
#[derive(Clone, Copy, Debug, PartialEq, Eq, Structural)]
pub enum Route {
    /// No record: no path, not a regular file, outside every monitored root,
    /// or ignored by the matched root.
    Discard,
    /// A record of `operation` against monitored entry `index`.
    Record { index: usize, operation: Operation },
}

/// Whether a file type is one the monitor never tracks.
pub open spec fn untracked(t: FileType) -> bool {
    t != FileType::Regular && t != FileType::Absent
}

/// The file name of a path: its last `/`-separated token.
pub open spec fn file_name_of(p: Seq<char>) -> Seq<char> {
    path_tokens(p).last()
}

/// The decision for a notification of `kind` on `paths` whose first path
/// holds a file of type `file_type`, against the ordered `monitor` entries.
pub open spec fn route_of(
    monitor: Seq<MonitoredPath>,
    kind: EventKind,
    paths: Seq<String>,
    file_type: FileType,
) -> Route {
    if paths.len() == 0 || untracked(file_type) {
        Route::Discard
    } else {
        let p = paths[0]@;
        match first_match(p, monitor) {
            None => Route::Discard,
            Some(i) => if ignored_by(monitor[i], file_name_of(p)) {
                Route::Discard
            } else {
                Route::Record { index: i as usize, operation: classify_spec(kind) }
            },
        }
    }
}

/// The file name of `path`: its last `/`-separated token.
pub fn file_name(path: &str) -> (r: &str)
    ensures
        r@ == file_name_of(path@),
{
    let tokens = split_text(path, SEPARATOR);
    proof {
        lemma_split_nonempty(path@, SEPARATOR);
    }
    let last = tokens[tokens.len() - 1];
    assert(last@ == tokens@.map_values(|t: &str| t@).last());
    last
}

impl Config {
    /// Decides what becomes of a notification: only its first path counts;
    /// it is discarded when there is none, when that path holds anything but a
    /// regular file (an absent file counts as tracked), when no monitored root
    /// matches it, or when the first matching root ignores its file name.
    pub fn route(&self, note: &Notification) -> (r: Route)
        ensures
            r == route_of(self.monitor@, note.kind, note.paths@, note.file_type),
    {
        if note.paths.len() == 0 {
            return Route::Discard;
        }
        match note.file_type {
            FileType::Regular | FileType::Absent => {},
            _ => {
                return Route::Discard;
            },
        }
        let path = note.paths[0].as_str();
        let count = self.monitor.len();
        let index = find_index(path, "", &self.monitor);
        proof {
            reveal_strlit("");
            assert(self.monitor@.len() == count as int);
            lemma_resolve_is_lowest_match(path@, self.monitor@);
            assert(match_target(path@, ""@) == path@);
        }
        if index == NOT_FOUND {
            assert(first_match(path@, self.monitor@) is None);
            return Route::Discard;
        }
        assert(first_match(path@, self.monitor@) == Some(index as int));
        let name = file_name(path);
        if ignored_in(&self.monitor[index], name) {
            return Route::Discard;
        }
        Route::Record { index, operation: classify(note.kind) }
    }

    /// Turns one notification into its audit record: `None` when the
    /// notification is discarded, or when a record other than a removal is
    /// owed but `meta` is missing. The record carries a fresh identifier, the
    /// first path, the label of the matched entry and `timestamp`.
    pub fn dispatch(&self, note: &Notification, meta: Option<FileMeta>, timestamp: String) -> (r:
        Option<AuditRecord>)
        ensures
            route_of(self.monitor@, note.kind, note.paths@, note.file_type) is Discard ==> r is None,
            route_of(self.monitor@, note.kind, note.paths@, note.file_type) matches Route::Record {
                index,
                operation,
            } ==> {
                &&& index < self.monitor@.len()
                &&& record_built(
                    r,
                    if r is Some {
                        record_id(r->0)
                    } else {
                        Seq::<char>::empty()
                    },
                    note.paths@[0]@,
                    label_text(self.monitor@[index as int].label),
                    operation,
                    timestamp@,
                    meta,
                )
                &&& r is Some ==> uuid_shaped(record_id(r->0))
            },
    {
        match self.route(note) {
            Route::Discard => None,
            Route::Record { index, operation } => {
                proof {
                    lemma_resolve_is_lowest_match(note.paths@[0]@, self.monitor@);
                }
                let label = self.get_label(index);
                let id = get_uuid();
                let ghost id_view = id@;
                let r = assemble(id, note.paths[0].as_str(), label, operation, timestamp, meta);
                assert(r is Some ==> record_id(r->0) == id_view);
                r
            },
        }
    }
}

/// Every notification that yields a record matched a monitored entry, was not
/// ignored by it, and came from a path holding a regular file or nothing.
pub proof fn lemma_record_has_match(
    monitor: Seq<MonitoredPath>,
    kind: EventKind,
    paths: Seq<String>,
    file_type: FileType,
)
    requires
        monitor.len() <= usize::MAX,
    ensures
        route_of(monitor, kind, paths, file_type) matches Route::Record { index, operation } ==> {
            &&& paths.len() > 0
            &&& !untracked(file_type)
            &&& index < monitor.len()
            &&& index == resolved_index(paths[0]@, monitor)
            &&& !ignored_by(monitor[index as int], file_name_of(paths[0]@))
            &&& operation == classify_spec(kind)
        },
{
    if paths.len() > 0 {
        lemma_resolve_is_lowest_match(paths[0]@, monitor);
    }
}

} // verus!
