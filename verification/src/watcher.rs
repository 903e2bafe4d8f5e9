//! Filesystem watcher: a background notification backend feeds raw change
//! events into an unbounded FIFO channel; polling drains the buffered
//! events, newest last, and renders each as a `"{kind}:{paths}"` record.
//! The backend (the `notify` crate) and the channel are consumed through a
//! narrow trusted interface; the normalization and the drain are verified.
use vstd::prelude::*;

verus! {

use crate::bytefmt::join_sep;
use crate::bytefmt::push_joined;
use crate::bytefmt::{COLON, SEMICOLON};
use crate::strlist::StringList;

#[verifier::external_type_specification]
#[verifier::external_body]
pub struct ExEvent(notify::Event);

#[verifier::external_type_specification]
#[verifier::external_body]
pub struct ExError(notify::Error);

#[verifier::external_type_specification]
#[verifier::external_body]
pub struct ExWatcherBackend(notify::RecommendedWatcher);

#[verifier::external_type_specification]
#[verifier::external_body]
#[verifier::reject_recursive_types(T)]
pub struct ExReceiver<T>(std::sync::mpsc::Receiver<T>);

#[verifier::external_type_specification]
#[verifier::external_body]
#[verifier::reject_recursive_types(T)]
pub struct ExSender<T>(std::sync::mpsc::Sender<T>);

/// What the background handler forwards for each notification: the raw
/// event, or the backend's own error.
pub type EventMsg = Result<notify::Event, notify::Error>;

/// Normalized kind of a filesystem change.
pub enum EventClass {
    Add,
    Access,
    Modify,
    Remove,
    Other,
}

/// One message after normalization: a change with its paths, or a backend
/// fault with its message.
pub enum RawEvent {
    Change { class: EventClass, paths: Vec<Vec<u8>> },
    Fault { message: Vec<u8> },
}

/// Relies on std::sync::mpsc::channel: messages sent on the first half
/// arrive on the second, in order, across threads.
#[verifier::external_body]
fn event_channel() -> (r: (std::sync::mpsc::Sender<EventMsg>, std::sync::mpsc::Receiver<EventMsg>)) {
    std::sync::mpsc::channel()
}

/// Relies on notify::Watcher::new for the platform backend
/// (RecommendedWatcher): starts the background worker; the handler forwards
/// every raw notification and every backend error into the given channel in
/// arrival order. Dropping the returned backend stops the worker.
#[verifier::external_body]
fn backend_new(tx: std::sync::mpsc::Sender<EventMsg>) -> (r: Result<
    notify::RecommendedWatcher,
    Vec<u8>,
>) {
    let handler = move |res: EventMsg|
        {
            let _ = tx.send(res);
        };
    match <notify::RecommendedWatcher as notify::Watcher>::new(handler, notify::Config::default()) {
        Ok(w) => Ok(w),
        Err(e) => Err(e.to_string().into_bytes()),
    }
}

/// Relies on notify::Watcher::watch: subscribes the backend to one path,
/// recursively or not. The subscription lives in the OS, so only the call's
/// own success or failure is visible here.
#[verifier::external_body]
fn backend_watch(w: &mut notify::RecommendedWatcher, path: &Vec<u8>, recursive: bool) -> (r: Result<
    (),
    Vec<u8>,
>) {
    let s = String::from_utf8_lossy(path.as_slice()).into_owned();
    let mode = if recursive {
        notify::RecursiveMode::Recursive
    } else {
        notify::RecursiveMode::NonRecursive
    };
    match notify::Watcher::watch(w, std::path::Path::new(&s), mode) {
        Ok(u) => Ok(u),
        Err(e) => Err(e.to_string().into_bytes()),
    }
}

/// Relies on notify::Watcher::unwatch: removes one subscription.
#[verifier::external_body]
fn backend_unwatch(w: &mut notify::RecommendedWatcher, path: &Vec<u8>) -> (r: Result<(), Vec<u8>>) {
    let s = String::from_utf8_lossy(path.as_slice()).into_owned();
    match notify::Watcher::unwatch(w, std::path::Path::new(&s)) {
        Ok(u) => Ok(u),
        Err(e) => Err(e.to_string().into_bytes()),
    }
}

/// Relies on std::sync::mpsc::Receiver::try_recv: the oldest buffered
/// message, if any, without blocking. What is buffered depends on the
/// background thread, so nothing is promised of the value.
#[verifier::external_body]
fn channel_try_recv(rx: &std::sync::mpsc::Receiver<EventMsg>) -> (r: Option<EventMsg>) {
    rx.try_recv().ok()
}

/// Relies on the notify event model: the Create, Access, Modify and Remove
/// kinds of notify::EventKind map to the four named classes and anything
/// else to Other; an event's paths are carried over in order; a backend
/// error is carried as its message. The caller handles every class and any
/// byte content, so nothing is promised of the value.
#[verifier::external_body]
fn event_to_raw(msg: EventMsg) -> (r: RawEvent) {
    let evt = match msg {
        Ok(evt) => evt,
        Err(e) => return RawEvent::Fault { message: e.to_string().into_bytes() },
    };
    let class = match evt.kind {
        notify::EventKind::Create(_) => EventClass::Add,
        notify::EventKind::Access(_) => EventClass::Access,
        notify::EventKind::Modify(_) => EventClass::Modify,
        notify::EventKind::Remove(_) => EventClass::Remove,
        _ => EventClass::Other,
    };
    let paths = evt.paths.iter().map(|p| p.to_string_lossy().into_owned().into_bytes()).collect();
    RawEvent::Change { class, paths }
}

/// Marker bytes of a normalized kind.
pub open spec fn class_seq(c: EventClass) -> Seq<u8> {
    match c {
        EventClass::Add => seq![65u8, 68u8, 68u8],  // "ADD"
        EventClass::Access => seq![65u8, 67u8, 67u8],  // "ACC"
        EventClass::Modify => seq![77u8, 79u8, 68u8],  // "MOD"
        EventClass::Remove => seq![82u8, 69u8, 77u8],  // "REM"
        EventClass::Other => seq![111u8, 116u8, 104u8, 101u8, 114u8],  // "other"

    }
}

/// A change record: `"{kind}:{semicolon-joined paths}"`.
pub open spec fn format_event_record(c: EventClass, paths: Seq<Seq<u8>>) -> Seq<u8> {
    class_seq(c) + seq![COLON] + join_sep(paths, SEMICOLON)
}

/// The record a normalized message is rendered to: a formatted change, or
/// a fault's message verbatim.
pub open spec fn raw_record(ev: RawEvent) -> Seq<u8> {
    match ev {
        RawEvent::Change { class, paths } => format_event_record(
            class,
            paths@.map_values(|p: Vec<u8>| p@),
        ),
        RawEvent::Fault { message } => message@,
    }
}

/// Render one normalized message to its record bytes.
pub fn render_raw_event(ev: &RawEvent) -> (r: Vec<u8>)
    ensures
        r@ == raw_record(*ev),
{
    match ev {
        RawEvent::Change { class, paths } => {
            let mut out: Vec<u8> = Vec::new();
            match class {
                EventClass::Add => {
                    out.push(65);  // 'A'
                    out.push(68);  // 'D'
                    out.push(68);  // 'D'
                },
                EventClass::Access => {
                    out.push(65);  // 'A'
                    out.push(67);  // 'C'
                    out.push(67);  // 'C'
                },
                EventClass::Modify => {
                    out.push(77);  // 'M'
                    out.push(79);  // 'O'
                    out.push(68);  // 'D'
                },
                EventClass::Remove => {
                    out.push(82);  // 'R'
                    out.push(69);  // 'E'
                    out.push(77);  // 'M'
                },
                EventClass::Other => {
                    out.push(111);  // 'o'
                    out.push(116);  // 't'
                    out.push(104);  // 'h'
                    out.push(101);  // 'e'
                    out.push(114);  // 'r'
                },
            }
            out.push(COLON);
            proof {
                assert(out@ =~= class_seq(*class) + seq![COLON]);
            }
            push_joined(&mut out, paths, SEMICOLON);
            proof {
                assert(out@ =~= raw_record(*ev));
            }
            out
        },
        RawEvent::Fault { message } => {
            let mut out: Vec<u8> = Vec::new();
            out.extend_from_slice(message.as_slice());
            proof {
                assert(out@ =~= raw_record(*ev));
            }
            out
        },
    }
}

/// At most this many records are handed back by one poll; anything beyond
/// stays buffered for the next poll.
pub const POLL_DRAIN_LIMIT: u64 = 0xFFFF_FFFF;

/// A watcher: the background backend, the receiving end of its event
/// channel, and a ghost model of the subscriptions requested so far.
/// Dropping the watcher stops the worker and releases the OS
/// subscriptions.
pub struct FileWatcher {
    inner: notify::RecommendedWatcher,
    recv: std::sync::mpsc::Receiver<EventMsg>,
    watched: Ghost<Set<Seq<u8>>>,
}

impl FileWatcher {
    /// The paths whose subscriptions have been accepted by the backend and
    /// not since removed.
    pub closed spec fn watch_set(self) -> Set<Seq<u8>> {
        self.watched@
    }

    /// Start a watcher with no subscriptions yet; fails with the backend's
    /// message when the platform mechanism cannot be started.
    pub fn new() -> (r: Result<FileWatcher, Vec<u8>>)
        ensures
            r matches Ok(w) ==> w.watch_set() == Set::<Seq<u8>>::empty(),
    {
        let (tx, rx) = event_channel();
        match backend_new(tx) {
            Ok(w) => Ok(FileWatcher { inner: w, recv: rx, watched: Ghost(Set::empty()) }),
            Err(e) => Err(e),
        }
    }

    /// Subscribe to one more path (fan-in): a watcher may watch several
    /// paths, each with its own recursive mode. On success the path joins
    /// the subscription set; a refused subscription changes nothing.
    pub fn watch(&mut self, path: &Vec<u8>, recursive: bool) -> (r: Result<(), Vec<u8>>)
        ensures
            r is Ok ==> final(self).watch_set() == old(self).watch_set().insert(path@),
            r is Err ==> final(self).watch_set() == old(self).watch_set(),
    {
        let r = backend_watch(&mut self.inner, path, recursive);
        if r.is_ok() {
            proof {
                self.watched@ = self.watched@.insert(path@);
            }
        }
        r
    }

    /// Remove one subscription; on success the path leaves the
    /// subscription set, and a refused removal changes nothing.
    pub fn unwatch(&mut self, path: &Vec<u8>) -> (r: Result<(), Vec<u8>>)
        ensures
            r is Ok ==> final(self).watch_set() == old(self).watch_set().remove(path@),
            r is Err ==> final(self).watch_set() == old(self).watch_set(),
    {
        let r = backend_unwatch(&mut self.inner, path);
        if r.is_ok() {
            proof {
                self.watched@ = self.watched@.remove(path@);
            }
        }
        r
    }

    /// Drain the buffered events without waiting and render each in FIFO
    /// order; an empty list just means nothing is pending. A record that
    /// holds an embedded null byte cannot be represented and is dropped.
    /// Polling consumes buffered events only; the watcher itself (its
    /// subscription set included) is unchanged.
    pub fn poll_events(&mut self) -> (r: StringList)
        ensures
            r.wf(),
            *final(self) == *old(self),
    {
        let mut out = StringList::new();
        let mut drained: u64 = 0;
        while drained < POLL_DRAIN_LIMIT
            invariant
                out.wf(),
            decreases POLL_DRAIN_LIMIT - drained,
        {
            match channel_try_recv(&self.recv) {
                None => {
                    break ;
                },
                Some(msg) => {
                    let raw = event_to_raw(msg);
                    let rec = render_raw_event(&raw);
                    out.push(rec);
                },
            }
            drained = drained + 1;
        }
        out
    }
}

} // verus!
