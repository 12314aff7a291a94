//! The repository watcher: its state, and which change a batch of touched
//! paths under `.git` signals.
use vstd::prelude::*;
use crate::text::{chars_contain, chars_end_with, chars_of, has_suffix, occurs};
use std::sync::mpsc::Sender;
use std::sync::{Arc, Mutex};

verus! {

#[verifier::external_type_specification]
#[verifier::external_body]
#[verifier::reject_recursive_types(T)]
pub struct ExSender<T>(std::sync::mpsc::Sender<T>);

#[verifier::external_type_specification]
#[verifier::external_body]
#[verifier::reject_recursive_types(T)]
pub struct ExMutex<T: ?Sized>(std::sync::Mutex<T>);

pub assume_specification<T>[ std::sync::Mutex::<T>::new ](t: T) -> std::sync::Mutex<T>;

/// Relies on `Sender::send`: it never blocks or panics; a receiver that is gone
/// makes it fail, which is of no concern when asking a watcher to stop.
#[verifier::external_body]
fn send_stop(tx: &Sender<()>) {
    let _ = tx.send(());
}

/// Relies on `Mutex::lock`: it blocks until the lock is held and fails when the
/// lock is poisoned; the held state is then stopped through `WatcherState::stop`.
#[verifier::external_body]
fn lock_and_stop(handle: &Arc<Mutex<WatcherState>>) -> (r: Result<Option<Sender<()>>, String>) {
    handle.lock().map(|mut state| state.stop()).map_err(|e| e.to_string())
}

/// The watcher's state: how to stop the running watch, and what it watches.
pub struct WatcherState {
    pub stop_tx: Option<Sender<()>>,
    pub watched_path: Option<String>,
}

/// A watcher shared between callers.
pub type WatcherHandle = Arc<Mutex<WatcherState>>;

impl WatcherState {
    /// A state that watches nothing.
    pub fn new() -> (r: Self)
        ensures
            r.stop_tx is None,
            r.watched_path is None,
    {
        WatcherState { stop_tx: None, watched_path: None }
    }

    /// Records a running watch of `path`, stopped through `stop_tx`.
    pub fn begin(&mut self, stop_tx: Sender<()>, path: String)
        ensures
            final(self).stop_tx == Some(stop_tx),
            final(self).watched_path == Some(path),
    {
        self.stop_tx = Some(stop_tx);
        self.watched_path = Some(path);
    }

    /// Forgets the running watch, handing back how to stop it.
    pub fn stop(&mut self) -> (r: Option<Sender<()>>)
        ensures
            r == old(self).stop_tx,
            final(self).stop_tx is None,
            final(self).watched_path is None,
    {
        let r = self.stop_tx.take();
        self.watched_path = None;
        r
    }
}

/// A new shared watcher that watches nothing.
pub fn create_watcher_handle() -> WatcherHandle {
    Arc::new(Mutex::new(WatcherState::new()))
}

/// Stops the watch the handle holds, if any; fails when the lock is poisoned.
pub fn stop_watching(watcher_handle: WatcherHandle) -> (r: Result<(), String>) {
    match lock_and_stop(&watcher_handle) {
        Err(e) => Err(e),
        Ok(taken) => {
            match taken {
                Some(tx) => send_stop(&tx),
                None => {},
            }
            Ok(())
        },
    }
}

/// The kind of repository change a watcher reports.
#[derive(Clone, Copy, Debug, PartialEq, Eq, Structural)]
pub enum ChangeKind {
    /// `HEAD` moved: a checkout or commit.
    Branch,
    /// The index changed.
    Index,
    /// A reference or its log changed.
    Refs,
}

/// The change that a touched path under `.git` signals, if any.
pub open spec fn path_kind(p: Seq<char>) -> Option<ChangeKind> {
    if has_suffix(p, "HEAD"@) || occurs(p, "/HEAD"@) {
        Some(ChangeKind::Branch)
    } else if has_suffix(p, "/index"@) || has_suffix(p, "/index.lock"@) {
        Some(ChangeKind::Index)
    } else if occurs(p, "/refs/"@) || occurs(p, "FETCH_HEAD"@) || occurs(p, "ORIG_HEAD"@)
        || occurs(p, "/logs/"@) {
        Some(ChangeKind::Refs)
    } else {
        None
    }
}

/// The change a batch signals: that of the last path that signals one.
pub open spec fn batch_kind(ps: Seq<Seq<char>>) -> Option<ChangeKind>
    decreases ps.len(),
{
    if ps.len() == 0 {
        None
    } else {
        match path_kind(ps.last()) {
            Some(k) => Some(k),
            None => batch_kind(ps.drop_last()),
        }
    }
}

/// The change that a touched path signals.
pub fn classify_path(path: &str) -> (r: Option<ChangeKind>)
    ensures
        r == path_kind(path@),
{
    let v = chars_of(path);
    if chars_end_with(&v, "HEAD") || chars_contain(&v, "/HEAD") {
        Some(ChangeKind::Branch)
    } else if chars_end_with(&v, "/index") || chars_end_with(&v, "/index.lock") {
        Some(ChangeKind::Index)
    } else if chars_contain(&v, "/refs/") || chars_contain(&v, "FETCH_HEAD") || chars_contain(
        &v,
        "ORIG_HEAD",
    ) || chars_contain(&v, "/logs/") {
        Some(ChangeKind::Refs)
    } else {
        None
    }
}

/// The change a batch of touched paths signals, if any.
pub fn classify_paths(paths: &Vec<String>) -> (r: Option<ChangeKind>)
    ensures
        r == batch_kind(crate::model::views(paths@)),
{
    let ghost vs = crate::model::views(paths@);
    let mut found: Option<ChangeKind> = None;
    let mut i: usize = 0;
    while i < paths.len()
        invariant
            i <= paths.len(),
            vs == crate::model::views(paths@),
            found == batch_kind(vs.take(i as int)),
        decreases paths.len() - i,
    {
        assert(vs.take(i + 1).drop_last() =~= vs.take(i as int));
        assert(vs.take(i + 1).last() == paths@[i as int]@);
        match classify_path(paths[i].as_str()) {
            Some(k) => {
                found = Some(k);
            },
            None => {},
        }
        i = i + 1;
    }
    assert(vs.take(paths.len() as int) =~= vs);
    found
}

/// What a watcher emits when the repository changed.
#[derive(Clone, Debug, PartialEq, Eq)]
pub struct GitChangeEvent {
    pub change_type: String,
}

pub open spec fn kind_name(k: ChangeKind) -> Seq<char> {
    match k {
        ChangeKind::Branch => "branch"@,
        ChangeKind::Index => "index"@,
        ChangeKind::Refs => "refs"@,
    }
}

impl GitChangeEvent {
    /// The event that reports a change of this kind.
    pub fn of_kind(k: ChangeKind) -> (r: Self)
        ensures
            r.change_type@ == kind_name(k),
    {
        let name = match k {
            ChangeKind::Branch => "branch",
            ChangeKind::Index => "index",
            ChangeKind::Refs => "refs",
        };
        GitChangeEvent { change_type: String::from_str(name) }
    }
}

/// The event to emit for a batch of touched paths, if any.
pub fn change_event_for(paths: &Vec<String>) -> (r: Option<GitChangeEvent>)
    ensures
        match batch_kind(crate::model::views(paths@)) {
            None => r is None,
            Some(k) => r matches Some(e) && e.change_type@ == kind_name(k),
        },
{
    match classify_paths(paths) {
        None => None,
        Some(k) => Some(GitChangeEvent::of_kind(k)),
    }
}

} // verus!
